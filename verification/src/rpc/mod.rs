//! Endpoints of remote procedure calls.

pub mod endpoint;
pub mod ip;
