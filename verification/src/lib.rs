//! Verified core of the PiroStats panel/tooltip renderer.

pub mod domain;
pub mod config;
pub mod render;
pub mod table;
pub mod text;
pub mod page_commands;
pub mod cli;
pub mod error;
pub mod numbers;
pub mod runtime;
pub mod diagnostics;
pub mod daemon;
pub mod daemon_loop;
pub mod dbus;
pub mod notify;
