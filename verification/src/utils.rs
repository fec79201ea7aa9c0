//! Stored preferences and the profiles that carry them.

pub mod config;
pub mod profile;
pub mod profiles;
