//! What the kernel is answered when the file system is mounted.

pub mod adapter;
pub mod laws;
pub mod listing;
pub mod outcome_laws;
