//! The command-line tool.

pub mod doctor;
