//! Profile resolution and the cached node directory of a launcher for
//! hosts that are reached through a bastion proxy.

pub mod app;
pub mod command;
pub mod config;
pub mod context;
pub mod error;
pub mod keyed;
pub mod pattern;
pub mod ssh;
pub mod teleport;
pub mod text;
pub mod utils;
