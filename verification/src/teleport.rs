//! The directory of nodes behind a proxy, and the tool that reaches it.

pub mod cache;
pub mod cli;
pub mod node;
