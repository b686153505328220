//! The metadata store over a key-value service with revisions.

pub mod among_others;
pub mod atomic_among;
pub mod atomic_laws;
pub mod atomic_read_laws;
pub mod atomic_reads;
pub mod atomic_store;
pub mod cas;
pub mod cas_laws;
pub mod id_laws;
pub mod ids;
pub mod keys;
pub mod kv;
pub mod laws;
pub mod names_update;
pub mod outcome_laws;
pub mod plain_nodes;
pub mod store;
pub mod tree_laws;
pub mod txn;
pub mod txn_laws;
pub mod watch;
