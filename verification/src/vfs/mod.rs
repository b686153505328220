//! Files and directories by path.

pub mod api;
pub mod chunks;
pub mod error;
pub mod fs;
pub mod laws;
pub mod op;
pub mod outcome_laws;
pub mod path;
pub mod request_laws;
pub mod tree;
pub mod walk;
