//! Table-free render model and monospace HTML serialization.

pub mod width;
pub mod model;
pub mod mono;
pub mod traces;
pub mod pages;
pub mod registry;
