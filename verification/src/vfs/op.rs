//! Requests of the file system to its parts, and what they mean.

use crate::meta::store::{DirEntry, FileAttr, MetaError};
use crate::meta::types::{CreateParams, Inode, SetAttrMask};
use crate::vfs::error::{VfsError, VfsErrorView};
use vstd::prelude::*;
use vstd::string::*;

verus! {

/// A request to a part of the file system.
#[derive(Debug, Clone)]
pub enum FsRequest {
    /// What a path stands for.
    Resolve(String),
    /// The directory of a path, made where it is missing.
    MakeDirs(String),
    /// What a name in a directory stands for.
    Lookup { parent: Inode, name: String },
    /// The attributes of an inode.
    Getattr(Inode),
    /// The entries of a directory.
    Readdir(Inode),
    /// Create a file or a directory.
    Create(CreateParams),
    /// Set attributes.
    Setattr(Inode, SetAttrMask),
    /// Remove a file.
    Unlink { parent: Inode, name: String },
    /// Remove an empty directory.
    Rmdir { parent: Inode, name: String },
    /// Move a name.
    Rename { old_parent: Inode, old_name: String, new_parent: Inode, new_name: String },
    /// Read bytes of a file.
    ReadData { ino: Inode, offset: u64, len: usize },
    /// Write bytes to a file.
    WriteData { ino: Inode, offset: u64, data: Vec<u8> },
}

/// Parameters of a creation over views.
pub struct CreateView {
    pub parent: Inode,
    pub name: Seq<char>,
    pub kind: crate::meta::store::FileType,
    pub mode: u32,
    pub uid: u32,
    pub gid: u32,
}

/// A request over views.
pub enum FsRequestView {
    Resolve(Seq<char>),
    MakeDirs(Seq<char>),
    Lookup { parent: Inode, name: Seq<char> },
    Getattr(Inode),
    Readdir(Inode),
    Create(CreateView),
    Setattr(Inode, SetAttrMask),
    Unlink { parent: Inode, name: Seq<char> },
    Rmdir { parent: Inode, name: Seq<char> },
    Rename { old_parent: Inode, old_name: Seq<char>, new_parent: Inode, new_name: Seq<char> },
    ReadData { ino: Inode, offset: u64, len: usize },
    WriteData { ino: Inode, offset: u64, data: Seq<u8> },
}

impl View for FsRequest {
    type V = FsRequestView;

    open spec fn view(&self) -> FsRequestView {
        match *self {
            FsRequest::Resolve(path) => FsRequestView::Resolve(path@),
            FsRequest::MakeDirs(path) => FsRequestView::MakeDirs(path@),
            FsRequest::Lookup { parent, name } => FsRequestView::Lookup { parent, name: name@ },
            FsRequest::Getattr(ino) => FsRequestView::Getattr(ino),
            FsRequest::Readdir(ino) => FsRequestView::Readdir(ino),
            FsRequest::Create(p) => FsRequestView::Create(
                CreateView {
                    parent: p.parent,
                    name: p.name@,
                    kind: p.kind,
                    mode: p.mode,
                    uid: p.uid,
                    gid: p.gid,
                },
            ),
            FsRequest::Setattr(ino, mask) => FsRequestView::Setattr(ino, mask),
            FsRequest::Unlink { parent, name } => FsRequestView::Unlink { parent, name: name@ },
            FsRequest::Rmdir { parent, name } => FsRequestView::Rmdir { parent, name: name@ },
            FsRequest::Rename { old_parent, old_name, new_parent, new_name } => {
                FsRequestView::Rename {
                    old_parent,
                    old_name: old_name@,
                    new_parent,
                    new_name: new_name@,
                }
            },
            FsRequest::ReadData { ino, offset, len } => FsRequestView::ReadData {
                ino,
                offset,
                len,
            },
            FsRequest::WriteData { ino, offset, data } => FsRequestView::WriteData {
                ino,
                offset,
                data: data@,
            },
        }
    }
}

/// A reply of a part of the file system.
#[derive(Debug)]
pub enum FsReply {
    /// What a path stands for, or the directory that was made.
    Path(Result<Inode, VfsError>),
    /// What a name stands for.
    Child(Result<Inode, MetaError>),
    Attr(Result<FileAttr, MetaError>),
    Entries(Result<Vec<DirEntry>, MetaError>),
    Created(Result<(Inode, FileAttr), MetaError>),
    Done(Result<(), MetaError>),
    Data(Vec<u8>),
    /// How many bytes were written.
    Written(usize),
}

/// Whether a reply is of the kind that the request calls for. A listing has fewer entries than
/// there are offsets.
pub open spec fn fs_fits(req: FsRequestView, reply: FsReply) -> bool {
    match reply {
        FsReply::Path(_) => req is Resolve || req is MakeDirs,
        FsReply::Child(_) => req is Lookup,
        FsReply::Attr(_) => req is Getattr || req is Setattr,
        FsReply::Entries(r) => req is Readdir && (r matches Ok(list) ==> list@.len() < i64::MAX - 3),
        FsReply::Created(_) => req is Create,
        FsReply::Done(_) => req is Unlink || req is Rmdir || req is Rename,
        FsReply::Data(_) => req is ReadData,
        FsReply::Written(n) => req matches FsRequestView::WriteData { data, .. } && n <= data.len(),
    }
}

/// The end of an operation that was given another reply than it asked for.
pub open spec fn misled() -> VfsErrorView {
    VfsErrorView::Operation("unexpected reply"@)
}

/// The end of an operation that was given another reply than it asked for.
pub fn make_misled() -> (r: VfsError)
    ensures
        r@ == misled(),
{
    VfsError::Operation(String::from_str("unexpected reply"))
}

/// What an operation does next: go on from a state, or end with a result.
pub enum FsStep<S, T> {
    Next(S),
    Done(Result<T, VfsError>),
}

/// A step with its error shown by its view.
pub enum FsStepView<S, T> {
    Next(S),
    Done(Result<T, VfsErrorView>),
}

/// An operation of the file system.
pub trait FsOperation: Sized {
    /// How the state is shown in contracts.
    type State;

    /// What the operation ends with.
    type Output;

    /// How the end is shown in contracts.
    type Shown;

    /// The view of the state.
    spec fn state(self) -> Self::State;

    /// The view of what the operation ends with.
    spec fn shown(out: Self::Output) -> Self::Shown;

    /// The states that an operation can be in.
    spec fn ready(s: Self::State) -> bool;

    /// The request that a state waits on.
    spec fn asks(s: Self::State) -> FsRequestView;

    /// How the operation goes on after a reply.
    spec fn after(s: Self::State, reply: FsReply) -> FsStepView<Self::State, Self::Shown>;

    /// The request that the state waits on.
    fn request(&self) -> (r: FsRequest)
        requires
            Self::ready(self.state()),
        ensures
            r@ == Self::asks(self.state()),
    ;

    /// Goes on after the reply to the request.
    fn resume(self, reply: FsReply) -> (r: FsStep<Self, Self::Output>)
        requires
            Self::ready(self.state()),
            fs_fits(Self::asks(self.state()), reply),
        ensures
            (match r {
                FsStep::Next(s) => FsStepView::<Self::State, Self::Shown>::Next(s.state()),
                FsStep::Done(Ok(out)) => FsStepView::<Self::State, Self::Shown>::Done(
                    Ok(Self::shown(out)),
                ),
                FsStep::Done(Err(e)) => FsStepView::<Self::State, Self::Shown>::Done(Err(e@)),
            }) == Self::after(self.state(), reply),
            r matches FsStep::Next(s) ==> Self::ready(s.state()),
    ;
}

} // verus!
