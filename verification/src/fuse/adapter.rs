//! Requests of the kernel for names and attributes.

use crate::meta::error::{eio, einval, enoent};
use crate::meta::etcd::store::{block_count, blocks_of};
use crate::meta::store::{FileAttr, FileType};
use crate::meta::types::{CreateParams, Inode, SetAttrMask};
use crate::vfs::error::VfsError;
use crate::vfs::fs::{size_mask, ReadInode, ReadInodePhase, WriteInode, WriteInodePhase};
use crate::vfs::op::{
    make_misled, misled, CreateView, FsOperation, FsReply, FsRequest, FsRequestView, FsStep,
    FsStepView,
};
use vstd::prelude::*;
use vstd::string::*;

verus! {

/// The kinds of files that the kernel is told.
#[derive(Debug, Clone, Copy, PartialEq, Eq, Structural)]
pub enum FuseKind {
    Directory,
    RegularFile,
}

/// The kind that the kernel is told.
pub open spec fn fuse_kind(kind: FileType) -> FuseKind {
    match kind {
        FileType::Dir => FuseKind::Directory,
        FileType::File => FuseKind::RegularFile,
    }
}

/// The kind that the kernel is told.
pub fn vfs_kind_to_fuse(kind: FileType) -> (r: FuseKind)
    ensures
        r == fuse_kind(kind),
        r == FuseKind::Directory <==> kind == FileType::Dir,
{
    match kind {
        FileType::Dir => FuseKind::Directory,
        FileType::File => FuseKind::RegularFile,
    }
}

/// The attributes that the kernel is told, but for the times, which are the present.
#[derive(Debug, Clone, Copy, PartialEq, Eq, Structural)]
pub struct FuseAttr {
    pub ino: u64,
    pub size: u64,
    pub blocks: u64,
    pub kind: FuseKind,
    pub perm: u16,
    pub nlink: u32,
    pub uid: u32,
    pub gid: u32,
    pub rdev: u32,
    pub blksize: u32,
}

/// The state of the whole file system that the kernel is told.
#[derive(Debug, Clone, Copy, PartialEq, Eq, Structural)]
pub struct FuseStatFs {
    pub blocks: u64,
    pub bfree: u64,
    pub bavail: u64,
    pub files: u64,
    pub ffree: u64,
    pub bsize: u32,
    pub namelen: u32,
    pub frsize: u32,
}

/// How many bytes the kernel may write at once.
pub const MAX_WRITE: u32 = 1_048_576;

/// How long the kernel may keep what it is told, in seconds.
pub const REPLY_TTL: u64 = 1;

/// Answers the kernel. Everything belongs to one user and one group.
#[derive(Debug, Clone, Copy)]
pub struct FuseAdapter {
    pub uid: u32,
    pub gid: u32,
}

impl FuseAdapter {
    /// The adapter for a user and a group.
    pub fn new(uid: u32, gid: u32) -> (r: Self)
        ensures
            r == (FuseAdapter { uid, gid }),
    {
        FuseAdapter { uid, gid }
    }

    /// The attributes that the kernel is told.
    pub open spec fn fuse_attr(self, attr: FileAttr) -> FuseAttr {
        FuseAttr {
            ino: attr.ino as u64,
            size: attr.size,
            blocks: blocks_of(attr.size as int) as u64,
            kind: fuse_kind(attr.kind),
            perm: match attr.kind {
                FileType::Dir => 0o755,
                FileType::File => 0o644,
            },
            nlink: 1,
            uid: self.uid,
            gid: self.gid,
            rdev: 0,
            blksize: 4096,
        }
    }

    /// The attributes that the kernel is told.
    pub fn to_fuse_attr(&self, attr: &FileAttr) -> (r: FuseAttr)
        ensures
            r == self.fuse_attr(*attr),
            r.ino == attr.ino as u64,
            r.size == attr.size,
            r.kind == FuseKind::Directory <==> attr.kind == FileType::Dir,
            r.uid == self.uid,
            r.gid == self.gid,
    {
        FuseAttr {
            ino: attr.ino as u64,
            size: attr.size,
            blocks: block_count(attr.size),
            kind: vfs_kind_to_fuse(attr.kind),
            perm: match attr.kind {
                FileType::Dir => 0o755,
                FileType::File => 0o644,
            },
            nlink: 1,
            uid: self.uid,
            gid: self.gid,
            rdev: 0,
            blksize: 4096,
        }
    }

    /// The state of the whole file system.
    pub fn statfs(&self) -> (r: FuseStatFs)
        ensures
            r == (FuseStatFs {
                blocks: 0,
                bfree: 0,
                bavail: 0,
                files: 0,
                ffree: u64::MAX,
                bsize: 4096,
                namelen: 255,
                frsize: 4096,
            }),
    {
        FuseStatFs {
            blocks: 0,
            bfree: 0,
            bavail: 0,
            files: 0,
            ffree: u64::MAX,
            bsize: 4096,
            namelen: 255,
            frsize: 4096,
        }
    }
}

/// A name of the kernel, which has to be text.
pub fn name_from_kernel(name: Option<String>) -> (r: Result<String, i32>)
    ensures
        match name {
            Some(text) => r == Ok::<String, i32>(text),
            None => r == Err::<String, i32>(22),
        },
{
    match name {
        Some(text) => Ok(text),
        None => Err(einval()),
    }
}

/// What the kernel asks for. Inodes are unsigned to the kernel.
#[derive(Debug, Clone)]
pub enum FuseCall {
    Lookup { parent: u64, name: String },
    Getattr(u64),
    /// The size is all that can be set.
    Setattr { ino: u64, size: Option<u64> },
    Mkdir { parent: u64, name: String, mode: u32 },
    Create { parent: u64, name: String, mode: u32 },
    Unlink { parent: u64, name: String },
    Rmdir { parent: u64, name: String },
    Rename { old_parent: u64, old_name: String, new_parent: u64, new_name: String },
    /// Files and directories are opened without a handle.
    Open(u64),
}

/// The inode that the kernel means.
pub open spec fn inode(ino: u64) -> Inode {
    Inode(ino as i64)
}

/// A request of the kernel that is being answered. The answer holds attributes where the
/// kernel is to be told some, or an error code.
pub struct FuseRequest {
    pub adapter: FuseAdapter,
    pub call: FuseCall,
    pub phase: FusePhase,
}

/// How far the answer has come.
#[derive(Debug, Clone, Copy)]
pub enum FusePhase {
    /// The call itself is made.
    Act,
    /// The attributes are read that the kernel is to be told.
    Attr(Inode),
}

/// How an answer begins: an update that sets nothing only reads.
pub open spec fn first_phase(call: FuseCall) -> FusePhase {
    match call {
        FuseCall::Setattr { ino, size: None } => FusePhase::Attr(inode(ino)),
        _ => FusePhase::Act,
    }
}

/// The code when a call itself fails.
pub open spec fn failure_code(call: FuseCall) -> i32 {
    match call {
        FuseCall::Lookup { .. } => 2,
        FuseCall::Getattr(_) => 2,
        FuseCall::Open(_) => 2,
        _ => 5,
    }
}

/// The code when a call itself fails.
fn code_of(call: &FuseCall) -> (r: i32)
    ensures
        r == failure_code(*call),
{
    match call {
        FuseCall::Lookup { .. } => enoent(),
        FuseCall::Getattr(_) => enoent(),
        FuseCall::Open(_) => enoent(),
        _ => eio(),
    }
}

impl FuseAdapter {
    /// Starts to answer. An update that sets nothing only reads.
    pub fn answer(self, call: FuseCall) -> (r: FuseRequest)
        ensures
            r.adapter == self,
            r.call == call,
            r.phase == first_phase(call),
    {
        let phase = match &call {
            FuseCall::Setattr { ino, size: None } => FusePhase::Attr(Inode(*ino as i64)),
            _ => FusePhase::Act,
        };
        FuseRequest { adapter: self, call, phase }
    }

    /// Begins to answer a request for bytes of a file.
    pub fn read(&self, inode: u64, offset: u64, size: u32) -> (r: ReadInode)
        ensures
            r == (ReadInode {
                ino: crate::fuse::adapter::inode(inode),
                offset,
                len: size as usize,
                phase: ReadInodePhase::Size,
            }),
    {
        ReadInode::start(Inode(inode as i64), offset, size as usize)
    }

    /// Tells the kernel the bytes that were read.
    pub fn read_reply(&self, data: Result<Vec<u8>, VfsError>) -> (r: Result<Vec<u8>, i32>)
        ensures
            match data {
                Ok(bytes) => r == Ok::<Vec<u8>, i32>(bytes),
                Err(_) => r == Err::<Vec<u8>, i32>(5),
            },
    {
        match data {
            Ok(bytes) => Ok(bytes),
            Err(_) => Err(eio()),
        }
    }

    /// Begins to answer a request to write bytes of a file.
    pub fn write(&self, inode: u64, offset: u64, data: Vec<u8>) -> (r: WriteInode)
        requires
            offset + data@.len() <= u64::MAX,
        ensures
            r == (WriteInode {
                ino: crate::fuse::adapter::inode(inode),
                offset,
                data,
                phase: WriteInodePhase::Data,
            }),
            WriteInode::ready(r),
    {
        WriteInode::start(Inode(inode as i64), offset, data)
    }

    /// Tells the kernel how many bytes were written. The kernel never sends more than fit.
    pub fn write_reply(&self, written: Result<usize, VfsError>) -> (r: Result<u32, i32>)
        requires
            written matches Ok(n) ==> n <= u32::MAX,
        ensures
            match written {
                Ok(n) => r == Ok::<u32, i32>(n as u32),
                Err(_) => r == Err::<u32, i32>(5),
            },
    {
        match written {
            Ok(n) => Ok(n as u32),
            Err(_) => Err(eio()),
        }
    }
}

impl FsOperation for FuseRequest {
    type State = FuseRequest;

    type Output = Result<Option<FuseAttr>, i32>;

    type Shown = Result<Option<FuseAttr>, i32>;

    open spec fn state(self) -> FuseRequest {
        self
    }

    open spec fn shown(out: Result<Option<FuseAttr>, i32>) -> Result<Option<FuseAttr>, i32> {
        out
    }

    open spec fn ready(s: FuseRequest) -> bool {
        true
    }

    open spec fn asks(s: FuseRequest) -> FsRequestView {
        match s.phase {
            FusePhase::Attr(ino) => FsRequestView::Getattr(ino),
            FusePhase::Act => match s.call {
                FuseCall::Lookup { parent, name } => FsRequestView::Lookup {
                    parent: inode(parent),
                    name: name@,
                },
                FuseCall::Getattr(ino) => FsRequestView::Getattr(inode(ino)),
                FuseCall::Setattr { ino, size } => FsRequestView::Setattr(
                    inode(ino),
                    match size {
                        Some(size) => size_mask(size),
                        None => SetAttrMask::nothing(),
                    },
                ),
                FuseCall::Mkdir { parent, name, mode } => FsRequestView::Create(
                    CreateView {
                        parent: inode(parent),
                        name: name@,
                        kind: FileType::Dir,
                        mode,
                        uid: s.adapter.uid,
                        gid: s.adapter.gid,
                    },
                ),
                FuseCall::Create { parent, name, mode } => FsRequestView::Create(
                    CreateView {
                        parent: inode(parent),
                        name: name@,
                        kind: FileType::File,
                        mode,
                        uid: s.adapter.uid,
                        gid: s.adapter.gid,
                    },
                ),
                FuseCall::Unlink { parent, name } => FsRequestView::Unlink {
                    parent: inode(parent),
                    name: name@,
                },
                FuseCall::Rmdir { parent, name } => FsRequestView::Rmdir {
                    parent: inode(parent),
                    name: name@,
                },
                FuseCall::Rename { old_parent, old_name, new_parent, new_name } => {
                    FsRequestView::Rename {
                        old_parent: inode(old_parent),
                        old_name: old_name@,
                        new_parent: inode(new_parent),
                        new_name: new_name@,
                    }
                },
                FuseCall::Open(ino) => FsRequestView::Getattr(inode(ino)),
            },
        }
    }

    open spec fn after(s: FuseRequest, reply: FsReply) -> FsStepView<
        FuseRequest,
        Result<Option<FuseAttr>, i32>,
    > {
        match s.phase {
            FusePhase::Attr(_) => match reply {
                FsReply::Attr(Ok(attr)) => FsStepView::Done(
                    Ok(Ok(Some(s.adapter.fuse_attr(attr)))),
                ),
                FsReply::Attr(Err(_)) => FsStepView::Done(Ok(Err(2))),
                _ => FsStepView::Done(Err(misled())),
            },
            FusePhase::Act => match reply {
                FsReply::Child(Ok(ino)) => FsStepView::Next(
                    FuseRequest { phase: FusePhase::Attr(ino), ..s },
                ),
                FsReply::Created(Ok(made)) => FsStepView::Next(
                    FuseRequest { phase: FusePhase::Attr(made.0), ..s },
                ),
                FsReply::Attr(Ok(attr)) => match s.call {
                    FuseCall::Setattr { ino, size } => FsStepView::Next(
                        FuseRequest { phase: FusePhase::Attr(inode(ino)), ..s },
                    ),
                    FuseCall::Open(_) => FsStepView::Done(Ok(Ok(None))),
                    _ => FsStepView::Done(Ok(Ok(Some(s.adapter.fuse_attr(attr))))),
                },
                FsReply::Done(Ok(_)) => FsStepView::Done(Ok(Ok(None))),
                FsReply::Child(Err(_)) => FsStepView::Done(Ok(Err(failure_code(s.call)))),
                FsReply::Created(Err(_)) => FsStepView::Done(Ok(Err(failure_code(s.call)))),
                FsReply::Attr(Err(_)) => FsStepView::Done(Ok(Err(failure_code(s.call)))),
                FsReply::Done(Err(_)) => FsStepView::Done(Ok(Err(failure_code(s.call)))),
                _ => FsStepView::Done(Err(misled())),
            },
        }
    }

    fn request(&self) -> (r: FsRequest) {
        match self.phase {
            FusePhase::Attr(ino) => FsRequest::Getattr(ino),
            FusePhase::Act => match &self.call {
                FuseCall::Lookup { parent, name } => FsRequest::Lookup {
                    parent: Inode(*parent as i64),
                    name: name.clone(),
                },
                FuseCall::Getattr(ino) => FsRequest::Getattr(Inode(*ino as i64)),
                FuseCall::Setattr { ino, size } => FsRequest::Setattr(
                    Inode(*ino as i64),
                    match size {
                        Some(size) => SetAttrMask::size(*size),
                        None => SetAttrMask::default(),
                    },
                ),
                FuseCall::Mkdir { parent, name, mode } => FsRequest::Create(
                    CreateParams {
                        parent: Inode(*parent as i64),
                        name: name.clone(),
                        kind: FileType::Dir,
                        mode: *mode,
                        uid: self.adapter.uid,
                        gid: self.adapter.gid,
                    },
                ),
                FuseCall::Create { parent, name, mode } => FsRequest::Create(
                    CreateParams {
                        parent: Inode(*parent as i64),
                        name: name.clone(),
                        kind: FileType::File,
                        mode: *mode,
                        uid: self.adapter.uid,
                        gid: self.adapter.gid,
                    },
                ),
                FuseCall::Unlink { parent, name } => FsRequest::Unlink {
                    parent: Inode(*parent as i64),
                    name: name.clone(),
                },
                FuseCall::Rmdir { parent, name } => FsRequest::Rmdir {
                    parent: Inode(*parent as i64),
                    name: name.clone(),
                },
                FuseCall::Rename { old_parent, old_name, new_parent, new_name } => {
                    FsRequest::Rename {
                        old_parent: Inode(*old_parent as i64),
                        old_name: old_name.clone(),
                        new_parent: Inode(*new_parent as i64),
                        new_name: new_name.clone(),
                    }
                },
                FuseCall::Open(ino) => FsRequest::Getattr(Inode(*ino as i64)),
            },
        }
    }

    fn resume(self, reply: FsReply) -> (r: FsStep<Self, Result<Option<FuseAttr>, i32>>) {
        let FuseRequest { adapter, call, phase } = self;
        match phase {
            FusePhase::Attr(_) => match reply {
                FsReply::Attr(Ok(attr)) => FsStep::Done(Ok(Ok(Some(adapter.to_fuse_attr(&attr))))),
                FsReply::Attr(Err(_)) => FsStep::Done(Ok(Err(enoent()))),
                _ => FsStep::Done(Err(make_misled())),
            },
            FusePhase::Act => match reply {
                FsReply::Child(Ok(ino)) => FsStep::Next(
                    FuseRequest { adapter, call, phase: FusePhase::Attr(ino) },
                ),
                FsReply::Created(Ok(made)) => FsStep::Next(
                    FuseRequest { adapter, call, phase: FusePhase::Attr(made.0) },
                ),
                FsReply::Attr(Ok(attr)) => {
                    let target = match &call {
                        FuseCall::Setattr { ino, .. } => Some(*ino),
                        _ => None,
                    };
                    if let Some(ino) = target {
                        return FsStep::Next(
                            FuseRequest { adapter, call, phase: FusePhase::Attr(Inode(ino as i64)) },
                        );
                    }
                    match &call {
                        FuseCall::Open(_) => FsStep::Done(Ok(Ok(None))),
                        _ => FsStep::Done(Ok(Ok(Some(adapter.to_fuse_attr(&attr))))),
                    }
                },
                FsReply::Done(Ok(_)) => FsStep::Done(Ok(Ok(None))),
                FsReply::Child(Err(_)) => FsStep::Done(Ok(Err(code_of(&call)))),
                FsReply::Created(Err(_)) => FsStep::Done(Ok(Err(code_of(&call)))),
                FsReply::Attr(Err(_)) => FsStep::Done(Ok(Err(code_of(&call)))),
                FsReply::Done(Err(_)) => FsStep::Done(Ok(Err(code_of(&call)))),
                _ => FsStep::Done(Err(make_misled())),
            },
        }
    }
}

} // verus!
