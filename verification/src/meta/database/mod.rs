//! The metadata store over relational tables.

pub mod connect;
pub mod db;
pub mod ids;
pub mod laws;
pub mod listing;
pub mod names;
pub mod nodes;
pub mod outcome_laws;
pub mod store;
