//! The verified core of a distributed file system.
//!
//! * `ctl`: the checks of the command-line tool;
//! * `fuse`: what the kernel is told of files and directories;
//! * `meta`: the metadata service: types, errors, configuration, cache, client
//!   and the relational and key-value stores;
//! * `rpc`: endpoints of remote procedure calls;
//! * `server`: the routing of connections and the registration of servers;
//! * `text`: decimal numbers and splitting of texts;
//! * `vfs`: files and directories by path and by inode;
//! * `xline`: watches, leases and ranges of keys of the key-value client.

pub mod ctl;
pub mod fuse;
pub mod meta;
pub mod rpc;
pub mod server;
pub mod text;
pub mod vfs;
pub mod xline;
