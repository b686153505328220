//! Why a file system operation failed.

use crate::meta::store::{detailed, ErrorView, MetaError};
use vstd::prelude::*;

verus! {

/// Why a file system operation failed.
#[derive(Debug, Clone)]
pub enum VfsError {
    PathNotFound(String),
    InvalidPath(String),
    NotDirectory(String),
    NotFile(String),
    AlreadyExists(String),
    DirectoryNotEmpty(String),
    Meta(MetaError),
    Io(String),
    Operation(String),
}

/// A file system error with its texts as sequences of characters.
pub enum VfsErrorView {
    PathNotFound(Seq<char>),
    InvalidPath(Seq<char>),
    NotDirectory(Seq<char>),
    NotFile(Seq<char>),
    AlreadyExists(Seq<char>),
    DirectoryNotEmpty(Seq<char>),
    Meta(ErrorView),
    Io(Seq<char>),
    Operation(Seq<char>),
}

impl View for VfsError {
    type V = VfsErrorView;

    open spec fn view(&self) -> VfsErrorView {
        match *self {
            VfsError::PathNotFound(s) => VfsErrorView::PathNotFound(s@),
            VfsError::InvalidPath(s) => VfsErrorView::InvalidPath(s@),
            VfsError::NotDirectory(s) => VfsErrorView::NotDirectory(s@),
            VfsError::NotFile(s) => VfsErrorView::NotFile(s@),
            VfsError::AlreadyExists(s) => VfsErrorView::AlreadyExists(s@),
            VfsError::DirectoryNotEmpty(s) => VfsErrorView::DirectoryNotEmpty(s@),
            VfsError::Meta(e) => VfsErrorView::Meta(e@),
            VfsError::Io(s) => VfsErrorView::Io(s@),
            VfsError::Operation(s) => VfsErrorView::Operation(s@),
        }
    }
}

impl VfsError {
    /// The text of the error.
    pub open spec fn text(self) -> Seq<char> {
        match self {
            VfsError::PathNotFound(s) => "Path not found: "@ + s@,
            VfsError::InvalidPath(s) => "Invalid path: "@ + s@,
            VfsError::NotDirectory(s) => "Not a directory: "@ + s@,
            VfsError::NotFile(s) => "Not a file: "@ + s@,
            VfsError::AlreadyExists(s) => "Already exists: "@ + s@,
            VfsError::DirectoryNotEmpty(s) => "Directory not empty: "@ + s@,
            VfsError::Meta(e) => "Metadata error: "@ + e.text(),
            VfsError::Io(s) => "IO error: "@ + s@,
            VfsError::Operation(s) => "Operation error: "@ + s@,
        }
    }

    /// The message for a reader.
    pub fn message(&self) -> (r: String)
        ensures
            r@ == self.text(),
    {
        match self {
            VfsError::PathNotFound(s) => detailed("Path not found: ", s.as_str()),
            VfsError::InvalidPath(s) => detailed("Invalid path: ", s.as_str()),
            VfsError::NotDirectory(s) => detailed("Not a directory: ", s.as_str()),
            VfsError::NotFile(s) => detailed("Not a file: ", s.as_str()),
            VfsError::AlreadyExists(s) => detailed("Already exists: ", s.as_str()),
            VfsError::DirectoryNotEmpty(s) => detailed("Directory not empty: ", s.as_str()),
            VfsError::Meta(e) => detailed("Metadata error: ", e.message().as_str()),
            VfsError::Io(s) => detailed("IO error: ", s.as_str()),
            VfsError::Operation(s) => detailed("Operation error: ", s.as_str()),
        }
    }
}

impl From<MetaError> for VfsError {
    fn from(e: MetaError) -> (r: Self) {
        VfsError::Meta(e)
    }
}

impl vstd::std_specs::convert::FromSpecImpl<MetaError> for VfsError {
    open spec fn obeys_from_spec() -> bool {
        true
    }

    open spec fn from_spec(e: MetaError) -> Self {
        VfsError::Meta(e)
    }
}

impl From<String> for VfsError {
    fn from(s: String) -> (r: Self) {
        VfsError::Operation(s)
    }
}

impl vstd::std_specs::convert::FromSpecImpl<String> for VfsError {
    open spec fn obeys_from_spec() -> bool {
        true
    }

    open spec fn from_spec(s: String) -> Self {
        VfsError::Operation(s)
    }
}

} // verus!
