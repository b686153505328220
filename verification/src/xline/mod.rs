//! The client of the key-value service: watches, leases and ranges of keys.

pub mod benchmark;
pub mod channel;
pub mod error;
pub mod lease;
pub mod range_end;
pub mod streaming;
pub mod watch;
