//! The metadata service.

pub mod answer_laws;
pub mod cache;
pub mod cache_laws;
pub mod client;
pub mod client_answer_laws;
pub mod client_calls;
pub mod client_laws;
pub mod client_store_laws;
pub mod config;
pub mod database;
pub mod entities;
pub mod error;
pub mod etcd;
pub mod failure_laws;
pub mod lru_table;
pub mod permission;
pub mod remote;
pub mod store;
pub mod store_v2;
pub mod transaction;
pub mod types;
