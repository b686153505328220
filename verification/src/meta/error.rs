//! Error codes for the kernel, and short constructors of errors.

use crate::meta::store::MetaError;
use crate::meta::types::Inode;
use vstd::prelude::*;

verus! {

/// Error codes of metadata errors.
pub trait MetaErrorExt {
    /// The code that the kernel is answered with.
    spec fn errno(&self) -> i32;

    /// The code that the kernel is answered with.
    fn to_errno(&self) -> (r: i32)
        ensures
            r == self.errno(),
    ;
}

/// `libc::ENOENT`, which the generic Linux numbering gives as 2.
#[verifier::external_body]
pub(crate) fn enoent() -> (r: i32)
    ensures
        r == 2,
{
    libc::ENOENT
}

/// `libc::EIO`, which the generic Linux numbering gives as 5.
#[verifier::external_body]
pub(crate) fn eio() -> (r: i32)
    ensures
        r == 5,
{
    libc::EIO
}

/// `libc::EEXIST`, which the generic Linux numbering gives as 17.
#[verifier::external_body]
fn eexist() -> (r: i32)
    ensures
        r == 17,
{
    libc::EEXIST
}

/// `libc::ENOTDIR`, which the generic Linux numbering gives as 20.
#[verifier::external_body]
pub(crate) fn enotdir() -> (r: i32)
    ensures
        r == 20,
{
    libc::ENOTDIR
}

/// `libc::EINVAL`, which the generic Linux numbering gives as 22.
#[verifier::external_body]
pub(crate) fn einval() -> (r: i32)
    ensures
        r == 22,
{
    libc::EINVAL
}

/// `libc::ENOSYS`, which the generic Linux numbering gives as 38.
#[verifier::external_body]
fn enosys() -> (r: i32)
    ensures
        r == 38,
{
    libc::ENOSYS
}

/// `libc::ENOTEMPTY`, which the generic Linux numbering gives as 39.
#[verifier::external_body]
fn enotempty() -> (r: i32)
    ensures
        r == 39,
{
    libc::ENOTEMPTY
}

/// `libc::ENOTSUP`, which the generic Linux numbering gives as 95.
#[verifier::external_body]
fn enotsup() -> (r: i32)
    ensures
        r == 95,
{
    libc::ENOTSUP
}

impl MetaErrorExt for MetaError {
    open spec fn errno(&self) -> i32 {
        match self {
            MetaError::NotFound(_) => 2,
            MetaError::ParentNotFound(_) => 2,
            MetaError::AlreadyExists { .. } => 17,
            MetaError::NotDirectory(_) => 20,
            MetaError::DirectoryNotEmpty(_) => 39,
            MetaError::InvalidPath(_) => 22,
            MetaError::NotSupported(_) => 95,
            MetaError::NotImplemented => 38,
            MetaError::Io { os_error, .. } => match os_error {
                Some(code) => *code,
                None => 5,
            },
            MetaError::Database(_) => 5,
            MetaError::Serialization(_) => 5,
            MetaError::Internal(_) => 5,
            MetaError::Config(_) => 22,
        }
    }

    fn to_errno(&self) -> (r: i32) {
        match self {
            MetaError::NotFound(_) => enoent(),
            MetaError::ParentNotFound(_) => enoent(),
            MetaError::AlreadyExists { .. } => eexist(),
            MetaError::NotDirectory(_) => enotdir(),
            MetaError::DirectoryNotEmpty(_) => enotempty(),
            MetaError::InvalidPath(_) => einval(),
            MetaError::NotSupported(_) => enotsup(),
            MetaError::NotImplemented => enosys(),
            MetaError::Io { os_error, .. } => match os_error {
                Some(code) => *code,
                None => eio(),
            },
            MetaError::Database(_) => eio(),
            MetaError::Serialization(_) => eio(),
            MetaError::Internal(_) => eio(),
            MetaError::Config(_) => einval(),
        }
    }
}

/// Constructors of the errors that name an inode.
pub trait MetaErrorHelper: Sized {
    /// There is no such entry.
    fn not_found(ino: Inode) -> Self;

    /// The parent directory does not exist.
    fn parent_not_found(ino: Inode) -> Self;

    /// The directory has an entry of that name.
    fn already_exists(parent: Inode, name: String) -> Self;

    /// The inode is no directory.
    fn not_directory(ino: Inode) -> Self;

    /// The directory has entries.
    fn directory_not_empty(ino: Inode) -> Self;
}

impl MetaErrorHelper for MetaError {
    fn not_found(ino: Inode) -> (r: Self)
        ensures
            r == MetaError::NotFound(ino.0),
    {
        MetaError::NotFound(ino.as_i64())
    }

    fn parent_not_found(ino: Inode) -> (r: Self)
        ensures
            r == MetaError::ParentNotFound(ino.0),
    {
        MetaError::ParentNotFound(ino.as_i64())
    }

    fn already_exists(parent: Inode, name: String) -> (r: Self)
        ensures
            r == (MetaError::AlreadyExists { parent: parent.0, name }),
    {
        MetaError::AlreadyExists { parent: parent.as_i64(), name }
    }

    fn not_directory(ino: Inode) -> (r: Self)
        ensures
            r == MetaError::NotDirectory(ino.0),
    {
        MetaError::NotDirectory(ino.as_i64())
    }

    fn directory_not_empty(ino: Inode) -> (r: Self)
        ensures
            r == MetaError::DirectoryNotEmpty(ino.0),
    {
        MetaError::DirectoryNotEmpty(ino.as_i64())
    }
}

} // verus!
