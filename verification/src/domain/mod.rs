//! Domain contracts: forms, metrics, item tokens, and boundary value types.

pub mod boundary;
pub mod form;
pub mod item;
pub mod metric;
pub mod registry;
pub mod state;
