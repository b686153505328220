//! Inode numbers and the parameters of metadata operations.

use crate::meta::store::FileType;
use crate::text::{dec, i64_text};
use vstd::prelude::*;
use vstd::string::*;

verus! {

/// The number of an inode.
#[derive(Debug, Clone, Copy, PartialEq, Eq, Hash, Structural)]
pub struct Inode(pub i64);

impl Inode {
    /// The root directory.
    pub fn root() -> (r: Self)
        ensures
            r == Inode(1),
    {
        Inode(1)
    }

    /// The number behind the inode.
    pub fn as_i64(self) -> (r: i64)
        ensures
            r == self.0,
    {
        self.0
    }

    /// The inode with a given number.
    pub fn new(value: i64) -> (r: Self)
        ensures
            r == Inode(value),
    {
        Inode(value)
    }

    /// The inode as it is shown to a reader: `ino:` and the number.
    pub fn text(self) -> (r: String)
        ensures
            r@ == "ino:"@ + dec(self.0 as int),
    {
        let mut r = String::from_str("ino:");
        r.append(i64_text(self.0).as_str());
        r
    }
}

impl From<i64> for Inode {
    fn from(value: i64) -> (r: Self) {
        Inode(value)
    }
}

impl vstd::std_specs::convert::FromSpecImpl<i64> for Inode {
    open spec fn obeys_from_spec() -> bool {
        true
    }

    open spec fn from_spec(value: i64) -> Self {
        Inode(value)
    }
}

impl From<Inode> for i64 {
    fn from(ino: Inode) -> (r: Self) {
        ino.0
    }
}

impl vstd::std_specs::convert::FromSpecImpl<Inode> for i64 {
    open spec fn obeys_from_spec() -> bool {
        true
    }

    open spec fn from_spec(ino: Inode) -> Self {
        ino.0
    }
}

/// What a new file or directory is created with.
#[derive(Debug, Clone)]
pub struct CreateParams {
    pub parent: Inode,
    pub name: String,
    pub kind: FileType,
    pub mode: u32,
    pub uid: u32,
    pub gid: u32,
}

impl CreateParams {
    /// A directory with mode `rwxr-xr-x`.
    pub fn dir(parent: Inode, name: String, uid: u32, gid: u32) -> (r: Self)
        ensures
            r == (CreateParams { parent, name, kind: FileType::Dir, mode: 0o755, uid, gid }),
    {
        CreateParams { parent, name, kind: FileType::Dir, mode: 0o755, uid, gid }
    }

    /// A file with mode `rw-r--r--`.
    pub fn file(parent: Inode, name: String, uid: u32, gid: u32) -> (r: Self)
        ensures
            r == (CreateParams { parent, name, kind: FileType::File, mode: 0o644, uid, gid }),
    {
        CreateParams { parent, name, kind: FileType::File, mode: 0o644, uid, gid }
    }

    /// The same parameters with other permission bits; bits above the
    /// permission bits are cleared.
    pub fn with_mode(self, mode: u32) -> (r: Self)
        ensures
            r == (CreateParams { mode: mode & 0o7777, ..self }),
    {
        CreateParams { mode: mode & 0o7777, ..self }
    }
}

/// Which attributes an update sets, and to what.
#[derive(Debug, Clone, Copy)]
pub struct SetAttrMask {
    pub size: Option<u64>,
    pub mode: Option<u32>,
    pub uid: Option<u32>,
    pub gid: Option<u32>,
    pub atime: Option<i64>,
    pub mtime: Option<i64>,
}

impl Default for SetAttrMask {
    fn default() -> (r: Self)
        ensures
            r == SetAttrMask::nothing(),
            r.size is None && r.mode is None && r.uid is None && r.gid is None && r.atime is None
                && r.mtime is None,
    {
        SetAttrMask { size: None, mode: None, uid: None, gid: None, atime: None, mtime: None }
    }
}

impl SetAttrMask {
    /// The mask that sets nothing.
    pub open spec fn nothing() -> SetAttrMask {
        SetAttrMask { size: None, mode: None, uid: None, gid: None, atime: None, mtime: None }
    }

    /// Sets the size alone.
    pub fn size(size: u64) -> (r: Self)
        ensures
            r == (SetAttrMask { size: Some(size), ..SetAttrMask::nothing() }),
            r.size == Some(size) && r.mode is None && r.uid is None && r.gid is None
                && r.atime is None && r.mtime is None,
    {
        SetAttrMask { size: Some(size), mode: None, uid: None, gid: None, atime: None, mtime: None }
    }

    /// Sets the mode alone.
    pub fn mode(mode: u32) -> (r: Self)
        ensures
            r == (SetAttrMask { mode: Some(mode), ..SetAttrMask::nothing() }),
            r.mode == Some(mode) && r.size is None && r.uid is None && r.gid is None
                && r.atime is None && r.mtime is None,
    {
        SetAttrMask { size: None, mode: Some(mode), uid: None, gid: None, atime: None, mtime: None }
    }

    /// Sets the owner and the group.
    pub fn owner(uid: u32, gid: u32) -> (r: Self)
        ensures
            r == (SetAttrMask { uid: Some(uid), gid: Some(gid), ..SetAttrMask::nothing() }),
            r.uid == Some(uid) && r.gid == Some(gid) && r.size is None && r.mode is None
                && r.atime is None && r.mtime is None,
    {
        SetAttrMask {
            size: None,
            mode: None,
            uid: Some(uid),
            gid: Some(gid),
            atime: None,
            mtime: None,
        }
    }

    /// Whether the mask sets nothing.
    pub fn is_empty(&self) -> (r: bool)
        ensures
            r == (*self == SetAttrMask::nothing()),
            r <==> self.size is None && self.mode is None && self.uid is None && self.gid is None
                && self.atime is None && self.mtime is None,
    {
        self.size.is_none() && self.mode.is_none() && self.uid.is_none() && self.gid.is_none()
            && self.atime.is_none() && self.mtime.is_none()
    }
}

} // verus!
