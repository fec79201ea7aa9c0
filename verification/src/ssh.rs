//! The command that opens the connection.

pub mod connect;
