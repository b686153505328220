//! The server: which service a connection goes to, and how servers come to be known.

pub mod h3_server;
pub mod port_router;
pub mod quic_runtime;
pub mod server_registry;
