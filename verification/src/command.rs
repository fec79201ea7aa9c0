//! What each command decides, apart from what it reads and prints.

pub mod completions;
pub mod config;
pub mod configure;
pub mod connect;
pub mod default;
pub mod login;
pub mod profile;
