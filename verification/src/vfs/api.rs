//! The file system as its users see it: where each operation begins, and the operations on inodes
//! that take a single request.

use crate::meta::store::{FileAttr, MetaError};
use crate::meta::types::{CreateParams, Inode, SetAttrMask};
use crate::text::components;
use crate::vfs::error::{VfsError, VfsErrorView};
use crate::vfs::fs::{
    stat_of, CreateFile, Exists, List, ReadFile, ReadInode, RemoveDir, RenameFile, Stat, Truncate,
    UnlinkFile, VFSFileAttr, WriteFile, WriteInode,
};
use crate::vfs::op::{CreateView, FsOperation, FsRequest, FsRequestView, FsStep};
use crate::vfs::path::{dir_and_name, normal};
use crate::vfs::walk::{MkdirP, MkdirPhase, MkdirState};
use vstd::prelude::*;

verus! {

/// A file system by its root directory.
#[derive(Debug, Clone, Copy, PartialEq, Eq, Structural)]
pub struct VFS {
    pub root: Inode,
}

/// What a reply of the metadata store becomes.
pub open spec fn passed_on<T>(reply: Result<T, MetaError>, r: Result<T, VfsError>) -> bool {
    match reply {
        Ok(v) => r == Ok::<T, VfsError>(v),
        Err(e) => r matches Err(err) && err@ == VfsErrorView::Meta(e@),
    }
}

/// Hands on a reply of the metadata store.
fn pass_on<T>(reply: Result<T, MetaError>) -> (r: Result<T, VfsError>)
    ensures
        passed_on(reply, r),
{
    match reply {
        Ok(v) => Ok(v),
        Err(e) => Err(VfsError::Meta(e)),
    }
}

impl VFS {
    /// A file system, once its metadata store was asked to initialize.
    pub fn with_meta_client(root: Inode, initialized: Result<(), MetaError>) -> (r: Result<
        VFS,
        VfsError,
    >)
        ensures
            match initialized {
                Ok(_) => r == Ok::<VFS, VfsError>(VFS { root }),
                Err(e) => r matches Err(err) && err@ == VfsErrorView::Meta(e@),
            },
    {
        match initialized {
            Ok(_) => Ok(VFS { root }),
            Err(e) => Err(VfsError::Meta(e)),
        }
    }

    /// The root directory.
    pub fn root_ino(&self) -> (r: i64)
        ensures
            r == self.root.0,
    {
        self.root.0
    }

    /// The path of an inode is not kept.
    pub fn path_of(&self, _ino: i64) -> (r: Option<String>)
        ensures
            r is None,
    {
        None
    }

    /// The parent of an inode is not kept.
    pub fn parent_of(&self, _ino: i64) -> (r: Option<i64>)
        ensures
            r is None,
    {
        None
    }

    /// The request for what a name in a directory stands for.
    pub fn lookup(&self, parent: i64, name: &str) -> (r: FsRequest)
        ensures
            r@ == (FsRequestView::Lookup { parent: Inode(parent), name: name@ }),
    {
        FsRequest::Lookup { parent: Inode(parent), name: name.to_owned() }
    }

    /// What a name stands for, given the reply.
    pub fn lookup_reply(&self, reply: Result<Inode, MetaError>) -> (r: Result<i64, VfsError>)
        ensures
            match reply {
                Ok(ino) => r == Ok::<i64, VfsError>(ino.0),
                Err(e) => r matches Err(err) && err@ == VfsErrorView::Meta(e@),
            },
    {
        match reply {
            Ok(ino) => Ok(ino.0),
            Err(e) => Err(VfsError::Meta(e)),
        }
    }

    /// What a name stands for, if it stands for something, given the reply.
    pub fn child_of(&self, reply: Result<Inode, MetaError>) -> (r: Option<Inode>)
        ensures
            match reply {
                Ok(ino) => r == Some(ino),
                Err(_) => r is None,
            },
    {
        match reply {
            Ok(ino) => Some(ino),
            Err(_) => None,
        }
    }

    /// The request for the attributes of an inode.
    pub fn getattr(&self, ino: i64) -> (r: FsRequest)
        ensures
            r@ == FsRequestView::Getattr(Inode(ino)),
    {
        FsRequest::Getattr(Inode(ino))
    }

    /// The attributes of an inode, given the reply.
    pub fn getattr_reply(&self, reply: Result<FileAttr, MetaError>) -> (r: Result<
        FileAttr,
        VfsError,
    >)
        ensures
            passed_on(reply, r),
    {
        pass_on(reply)
    }

    /// Inode, size and kind of an inode, if they can be read, given the reply.
    pub fn stat_ino(&self, reply: Result<FileAttr, MetaError>) -> (r: Option<VFSFileAttr>)
        ensures
            match reply {
                Ok(attr) => r == Some(
                    VFSFileAttr { ino: attr.ino, size: attr.size, kind: attr.kind },
                ),
                Err(_) => r is None,
            },
    {
        match reply {
            Ok(attr) => Some(stat_of(&attr)),
            Err(_) => None,
        }
    }

    /// The request to set the size of a file.
    pub fn truncate_ino(&self, ino: i64, size: u64) -> (r: FsRequest)
        ensures
            r@ == FsRequestView::Setattr(
                Inode(ino),
                SetAttrMask {
                    size: Some(size),
                    mode: None,
                    uid: None,
                    gid: None,
                    atime: None,
                    mtime: None,
                },
            ),
    {
        FsRequest::Setattr(Inode(ino), SetAttrMask::size(size))
    }

    /// The request to set attributes.
    pub fn setattr_ino(&self, ino: i64, mask: SetAttrMask) -> (r: FsRequest)
        ensures
            r@ == FsRequestView::Setattr(Inode(ino), mask),
    {
        FsRequest::Setattr(Inode(ino), mask)
    }

    /// The request to make a directory.
    pub fn mkdir_ino(&self, parent: i64, name: &str, mode: u32, uid: u32, gid: u32) -> (r:
        FsRequest)
        ensures
            r@ == FsRequestView::Create(
                CreateView {
                    parent: Inode(parent),
                    name: name@,
                    kind: crate::meta::store::FileType::Dir,
                    mode,
                    uid,
                    gid,
                },
            ),
    {
        let params = CreateParams::dir(Inode(parent), name.to_owned(), uid, gid);
        FsRequest::Create(CreateParams { mode, ..params })
    }

    /// The request to make a file.
    pub fn create_ino(&self, parent: i64, name: &str, mode: u32, uid: u32, gid: u32) -> (r:
        FsRequest)
        ensures
            r@ == FsRequestView::Create(
                CreateView {
                    parent: Inode(parent),
                    name: name@,
                    kind: crate::meta::store::FileType::File,
                    mode,
                    uid,
                    gid,
                },
            ),
    {
        let params = CreateParams::file(Inode(parent), name.to_owned(), uid, gid);
        FsRequest::Create(CreateParams { mode, ..params })
    }

    /// What was made, given the reply.
    pub fn created(&self, reply: Result<(Inode, FileAttr), MetaError>) -> (r: Result<i64, VfsError>)
        ensures
            match reply {
                Ok((ino, _)) => r == Ok::<i64, VfsError>(ino.0),
                Err(e) => r matches Err(err) && err@ == VfsErrorView::Meta(e@),
            },
    {
        match reply {
            Ok((ino, _)) => Ok(ino.0),
            Err(e) => Err(VfsError::Meta(e)),
        }
    }

    /// The request to remove a file.
    pub fn unlink_ino(&self, parent: i64, name: &str) -> (r: FsRequest)
        ensures
            r@ == (FsRequestView::Unlink { parent: Inode(parent), name: name@ }),
    {
        FsRequest::Unlink { parent: Inode(parent), name: name.to_owned() }
    }

    /// The request to remove an empty directory.
    pub fn rmdir_ino(&self, parent: i64, name: &str) -> (r: FsRequest)
        ensures
            r@ == (FsRequestView::Rmdir { parent: Inode(parent), name: name@ }),
    {
        FsRequest::Rmdir { parent: Inode(parent), name: name.to_owned() }
    }

    /// The request to move a name.
    pub fn rename_ino(&self, old_parent: i64, old_name: &str, new_parent: i64, new_name: &str) -> (r:
        FsRequest)
        ensures
            r@ == (FsRequestView::Rename {
                old_parent: Inode(old_parent),
                old_name: old_name@,
                new_parent: Inode(new_parent),
                new_name: new_name@,
            }),
    {
        FsRequest::Rename {
            old_parent: Inode(old_parent),
            old_name: old_name.to_owned(),
            new_parent: Inode(new_parent),
            new_name: new_name.to_owned(),
        }
    }

    /// How a request without a result ended, given the reply.
    pub fn done(&self, reply: Result<(), MetaError>) -> (r: Result<(), VfsError>)
        ensures
            passed_on(reply, r),
    {
        pass_on(reply)
    }

    /// Begins to read bytes of a file.
    pub fn read_ino(&self, ino: i64, offset: u64, len: usize) -> (r: ReadInode)
        ensures
            r == (ReadInode {
                ino: Inode(ino),
                offset,
                len,
                phase: crate::vfs::fs::ReadInodePhase::Size,
            }),
    {
        ReadInode::start(Inode(ino), offset, len)
    }

    /// Begins to write bytes to a file.
    pub fn write_ino(&self, ino: i64, offset: u64, data: Vec<u8>) -> (r: WriteInode)
        requires
            offset + data@.len() <= u64::MAX,
        ensures
            r == (WriteInode {
                ino: Inode(ino),
                offset,
                data,
                phase: crate::vfs::fs::WriteInodePhase::Data,
            }),
            WriteInode::ready(r),
    {
        WriteInode::start(Inode(ino), offset, data)
    }

    /// Begins to make the directory of a path, with all that are missing above it.
    pub fn mkdir_p(&self, path: &str) -> (r: FsStep<MkdirP, Inode>)
        ensures
            match r {
                FsStep::Next(s) => components(path@).len() > 0 && s.state() == (MkdirState {
                    path: normal(path@),
                    parts: components(path@),
                    at: 0,
                    current: self.root,
                    phase: MkdirPhase::Whole,
                }) && MkdirP::ready(s.state()),
                FsStep::Done(end) => components(path@).len() == 0 && end == Ok::<Inode, VfsError>(
                    self.root,
                ),
            },
    {
        MkdirP::start(self.root, path)
    }

    /// Begins to create the file of a path.
    pub fn create_file(&self, path: &str) -> (r: CreateFile)
        ensures
            r.path@ == normal(path@),
            (r.dir@, r.name@) == dir_and_name(normal(path@)),
            r.phase == crate::vfs::fs::CreateFilePhase::Dirs,
    {
        CreateFile::start(path)
    }

    /// Begins to read the attributes of a path.
    pub fn stat(&self, path: &str) -> (r: Stat)
        ensures
            r.path@ == normal(path@),
            r.phase == crate::vfs::fs::StatPhase::Path,
    {
        Stat::start(path)
    }

    /// Begins to list the directory of a path.
    pub fn readdir(&self, path: &str) -> (r: List)
        ensures
            r.path@ == normal(path@),
            r.phase == crate::vfs::fs::ListPhase::Path,
    {
        List::start(path)
    }

    /// Begins to see whether a path exists.
    pub fn path_exists(&self, path: &str) -> (r: Exists)
        ensures
            r.path@ == normal(path@),
            r.phase == crate::vfs::fs::ExistsPhase::Path,
    {
        Exists::start(path)
    }

    /// Begins to remove the file of a path.
    pub fn unlink(&self, path: &str) -> (r: Result<UnlinkFile, VfsError>)
        ensures
            if normal(path@) == seq!['/'] {
                r matches Err(e) && e@ == VfsErrorView::InvalidPath("Cannot parse root path"@)
            } else {
                r matches Ok(s) && s.path@ == normal(path@) && (s.dir@, s.name@) == dir_and_name(
                    normal(path@),
                ) && s.phase == crate::vfs::fs::UnlinkFilePhase::Dir
            },
    {
        UnlinkFile::start(path)
    }

    /// Begins to remove the empty directory of a path.
    pub fn rmdir(&self, path: &str) -> (r: Result<RemoveDir, VfsError>)
        ensures
            if normal(path@) == seq!['/'] {
                r matches Err(e) && e@ == VfsErrorView::Operation("cannot remove root"@)
            } else {
                r matches Ok(s) && s.path@ == normal(path@) && (s.dir@, s.name@) == dir_and_name(
                    normal(path@),
                ) && s.phase == crate::vfs::fs::RemoveDirPhase::Dir
            },
    {
        RemoveDir::start(path)
    }

    /// Begins to move a file to another path.
    pub fn rename_file(&self, old: &str, new: &str) -> (r: RenameFile)
        ensures
            r.old_path@ == normal(old@),
            (r.old_dir@, r.old_name@) == dir_and_name(normal(old@)),
            r.new_path@ == normal(new@),
            (r.new_dir@, r.new_name@) == dir_and_name(normal(new@)),
            r.phase == crate::vfs::fs::RenameFilePhase::Target,
    {
        RenameFile::start(old, new)
    }

    /// Begins to set the size of the file of a path.
    pub fn truncate(&self, path: &str, size: u64) -> (r: Truncate)
        ensures
            r.path@ == normal(path@),
            r.size == size,
            r.phase == crate::vfs::fs::TruncatePhase::Path,
    {
        Truncate::start(path, size)
    }

    /// Begins to read bytes of the file of a path.
    pub fn read(&self, path: &str, offset: u64, len: usize) -> (r: ReadFile)
        ensures
            r.path@ == normal(path@),
            r.offset == offset,
            r.len == len,
            r.phase == crate::vfs::fs::ReadFilePhase::Path,
    {
        ReadFile::start(path, offset, len)
    }

    /// Begins to write bytes to the file of a path.
    pub fn write(&self, path: &str, offset: u64, data: Vec<u8>) -> (r: WriteFile)
        requires
            offset + data@.len() <= u64::MAX,
        ensures
            r.path@ == normal(path@),
            r.offset == offset,
            r.data == data,
            r.phase == crate::vfs::fs::WriteFilePhase::Path,
            WriteFile::ready(r),
    {
        WriteFile::start(path, offset, data)
    }
}

/// The file system for applications.
#[derive(Debug, Clone, Copy, PartialEq, Eq, Structural)]
pub struct Client {
    pub vfs: VFS,
}

impl Client {
    /// A client of a file system.
    pub fn new(vfs: VFS) -> (r: Client)
        ensures
            r.vfs == vfs,
    {
        Client { vfs }
    }

    /// The attributes of a path, given what the file system found there.
    pub fn stat(&self, path: &str, found: Option<FileAttr>) -> (r: Result<FileAttr, VfsError>)
        ensures
            match found {
                Some(attr) => r == Ok::<FileAttr, VfsError>(attr),
                None => r matches Err(e) && e@ == VfsErrorView::PathNotFound(path@),
            },
    {
        match found {
            Some(attr) => Ok(attr),
            None => Err(VfsError::PathNotFound(path.to_owned())),
        }
    }
}

/// A reply of the metadata store is handed on as it is, and an error of it as one of the metadata.
pub proof fn law_replies_are_handed_on<T>(reply: Result<T, MetaError>, r: Result<T, VfsError>)
    requires
        passed_on(reply, r),
    ensures
        reply is Ok <==> r is Ok,
        reply matches Ok(v) ==> r->Ok_0 == v,
        reply matches Err(e) ==> r->Err_0@ == VfsErrorView::Meta(e@),
{
}

} // verus!
