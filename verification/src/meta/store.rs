//! What every metadata store speaks of: attributes, entries and errors.

use crate::text::{dec, i64_text};
use vstd::prelude::*;
use vstd::string::*;

verus! {

/// Files and directories.
#[derive(Debug, Clone, Copy, PartialEq, Eq, Structural)]
pub enum FileType {
    File,
    Dir,
}

/// Attributes of a file or a directory.
#[derive(Debug, Clone, Copy, PartialEq, Eq, Structural)]
pub struct FileAttr {
    pub ino: i64,
    pub size: u64,
    pub blocks: u64,
    pub kind: FileType,
    pub mode: u32,
    pub uid: u32,
    pub gid: u32,
    pub atime: i64,
    pub mtime: i64,
    pub ctime: i64,
    pub nlink: u32,
    pub blksize: u32,
    pub rdev: u32,
    pub version: u64,
}

/// An entry of a directory.
#[derive(Debug, Clone)]
pub struct DirEntry {
    pub name: String,
    pub ino: i64,
    pub kind: FileType,
}

/// Why a metadata operation failed.
#[derive(Debug, Clone)]
pub enum MetaError {
    NotFound(i64),
    ParentNotFound(i64),
    AlreadyExists { parent: i64, name: String },
    NotDirectory(i64),
    DirectoryNotEmpty(i64),
    InvalidPath(String),
    NotSupported(String),
    NotImplemented,
    Internal(String),
    Database(String),
    Io { os_error: Option<i32>, detail: String },
    Serialization(String),
    Config(String),
}

/// A metadata error with its texts as sequences of characters.
pub enum ErrorView {
    NotFound(i64),
    ParentNotFound(i64),
    AlreadyExists { parent: i64, name: Seq<char> },
    NotDirectory(i64),
    DirectoryNotEmpty(i64),
    InvalidPath(Seq<char>),
    NotSupported(Seq<char>),
    NotImplemented,
    Internal(Seq<char>),
    Database(Seq<char>),
    Io { os_error: Option<i32>, detail: Seq<char> },
    Serialization(Seq<char>),
    Config(Seq<char>),
}

impl View for MetaError {
    type V = ErrorView;

    open spec fn view(&self) -> ErrorView {
        match *self {
            MetaError::NotFound(ino) => ErrorView::NotFound(ino),
            MetaError::ParentNotFound(ino) => ErrorView::ParentNotFound(ino),
            MetaError::AlreadyExists { parent, name } => ErrorView::AlreadyExists {
                parent,
                name: name@,
            },
            MetaError::NotDirectory(ino) => ErrorView::NotDirectory(ino),
            MetaError::DirectoryNotEmpty(ino) => ErrorView::DirectoryNotEmpty(ino),
            MetaError::InvalidPath(path) => ErrorView::InvalidPath(path@),
            MetaError::NotSupported(what) => ErrorView::NotSupported(what@),
            MetaError::NotImplemented => ErrorView::NotImplemented,
            MetaError::Internal(what) => ErrorView::Internal(what@),
            MetaError::Database(what) => ErrorView::Database(what@),
            MetaError::Io { os_error, detail } => ErrorView::Io { os_error, detail: detail@ },
            MetaError::Serialization(what) => ErrorView::Serialization(what@),
            MetaError::Config(what) => ErrorView::Config(what@),
        }
    }
}

/// A result with its error shown by its view.
pub open spec fn result_view<T>(r: Result<T, MetaError>) -> Result<T, ErrorView> {
    match r {
        Ok(v) => Ok(v),
        Err(e) => Err(e@),
    }
}

/// What a store operation does next: go on from a state, or end with a result.
pub enum Step<S, T> {
    Next(S),
    Done(Result<T, MetaError>),
}

/// A step with its error shown by its view.
pub enum StepView<S, T> {
    Next(S),
    Done(Result<T, ErrorView>),
}

impl MetaError {
    /// The text of the error.
    pub open spec fn text(self) -> Seq<char> {
        match self {
            MetaError::NotFound(ino) => "Entry not found: "@ + dec(ino as int),
            MetaError::ParentNotFound(ino) => "Parent directory not found: "@ + dec(ino as int),
            MetaError::AlreadyExists { parent, name } => "Entry already exists: "@ + name@
                + " in parent "@ + dec(parent as int),
            MetaError::NotDirectory(ino) => "Not a directory: "@ + dec(ino as int),
            MetaError::DirectoryNotEmpty(ino) => "Directory not empty: "@ + dec(ino as int),
            MetaError::InvalidPath(path) => "Invalid path: "@ + path@,
            MetaError::NotSupported(what) => "Operation not supported: "@ + what@,
            MetaError::NotImplemented => "Not implemented"@,
            MetaError::Internal(what) => "Internal error: "@ + what@,
            MetaError::Database(what) => "Database error: "@ + what@,
            MetaError::Io { os_error, detail } => "IO error: "@ + detail@,
            MetaError::Serialization(what) => "Serialization error: "@ + what@,
            MetaError::Config(what) => "Config error: "@ + what@,
        }
    }

    /// The message for a reader.
    pub fn message(&self) -> (r: String)
        ensures
            r@ == self.text(),
    {
        match self {
            MetaError::NotFound(ino) => numbered("Entry not found: ", *ino),
            MetaError::ParentNotFound(ino) => numbered("Parent directory not found: ", *ino),
            MetaError::AlreadyExists { parent, name } => {
                let mut r = detailed("Entry already exists: ", name.as_str());
                r.append(" in parent ");
                r.append(i64_text(*parent).as_str());
                r
            },
            MetaError::NotDirectory(ino) => numbered("Not a directory: ", *ino),
            MetaError::DirectoryNotEmpty(ino) => numbered("Directory not empty: ", *ino),
            MetaError::InvalidPath(path) => detailed("Invalid path: ", path.as_str()),
            MetaError::NotSupported(what) => detailed("Operation not supported: ", what.as_str()),
            MetaError::NotImplemented => String::from_str("Not implemented"),
            MetaError::Internal(what) => detailed("Internal error: ", what.as_str()),
            MetaError::Database(what) => detailed("Database error: ", what.as_str()),
            MetaError::Io { os_error, detail } => detailed("IO error: ", detail.as_str()),
            MetaError::Serialization(what) => detailed("Serialization error: ", what.as_str()),
            MetaError::Config(what) => detailed("Config error: ", what.as_str()),
        }
    }
}

/// A label and a number.
fn numbered(label: &str, n: i64) -> (r: String)
    ensures
        r@ == label@ + dec(n as int),
{
    let mut r = String::from_str(label);
    r.append(i64_text(n).as_str());
    r
}

/// A text made of a label and a detail.
pub fn detailed(label: &str, detail: &str) -> (r: String)
    ensures
        r@ == label@ + detail@,
{
    let mut r = String::from_str(label);
    r.append(detail);
    r
}

} // verus!
