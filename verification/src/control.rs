//! Remote control: the parameter values and the commands that change them.

pub mod control_utils;
pub mod socket_handler;
pub mod web_server;
