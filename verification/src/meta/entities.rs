//! The rows and values that the stores keep.

use crate::meta::permission::Permission;
use crate::meta::store::FileType;
use vstd::prelude::*;

verus! {

/// What a directory entry stands for.
#[derive(Debug, Clone, Copy, PartialEq, Eq, Structural)]
pub enum EntryType {
    File,
    Directory,
}

impl From<EntryType> for FileType {
    fn from(entry_type: EntryType) -> (r: Self) {
        match entry_type {
            EntryType::File => FileType::File,
            EntryType::Directory => FileType::Dir,
        }
    }
}

impl vstd::std_specs::convert::FromSpecImpl<EntryType> for FileType {
    open spec fn obeys_from_spec() -> bool {
        true
    }

    open spec fn from_spec(entry_type: EntryType) -> Self {
        match entry_type {
            EntryType::File => FileType::File,
            EntryType::Directory => FileType::Dir,
        }
    }
}

/// Metadata of a directory.
#[derive(Debug, Clone, Copy, PartialEq, Eq, Structural)]
pub struct AccessMetaModel {
    pub inode: i64,
    pub permission: Permission,
    pub access_time: i64,
    pub modify_time: i64,
    pub create_time: i64,
    pub nlink: i32,
}

/// Metadata of a file.
#[derive(Debug, Clone, Copy, PartialEq, Eq, Structural)]
pub struct FileMetaModel {
    pub inode: i64,
    pub size: i64,
    pub permission: Permission,
    pub access_time: i64,
    pub modify_time: i64,
    pub create_time: i64,
    pub nlink: i32,
}

/// An entry of a directory: the inode is in the parent under the name.
#[derive(Debug, Clone)]
pub struct ContentMetaModel {
    pub inode: i64,
    pub parent_inode: i64,
    pub entry_name: String,
    pub entry_type: EntryType,
}

/// Metadata of an inode in the key-value store.
#[derive(Debug, Clone, Copy, PartialEq, Eq, Structural)]
pub struct EtcdEntryInfo {
    pub is_file: bool,
    pub size: Option<i64>,
    pub version: Option<i32>,
    pub permission: Permission,
    pub access_time: i64,
    pub modify_time: i64,
    pub create_time: i64,
    pub nlink: u32,
}

/// Metadata of an inode together with the place where it is found.
#[derive(Debug, Clone)]
pub struct EtcdPlacedEntry {
    pub info: EtcdEntryInfo,
    pub parent_inode: i64,
    pub entry_name: String,
}

/// What a name in a directory stands for, in the key-value store.
#[derive(Debug, Clone)]
pub struct EtcdForwardEntry {
    pub parent_inode: i64,
    pub name: String,
    pub inode: i64,
    pub is_file: bool,
}

/// The names in a directory, in the key-value store; their order has no meaning.
#[derive(Debug, Clone)]
pub struct EtcdDirChildren {
    pub inode: i64,
    pub children: Vec<String>,
}

/// An entry that stands for a directory is of the kind of a directory, and another of that of a
/// file.
pub proof fn law_entry_types_are_kinds(entry_type: EntryType)
    ensures
        <FileType as vstd::std_specs::convert::FromSpec<EntryType>>::from_spec(entry_type) is Dir
            <==> entry_type is Directory,
{
}

} // verus!
