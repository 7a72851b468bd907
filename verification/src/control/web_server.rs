//! The HTTP control API.

pub mod server;
