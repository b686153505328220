//! What the operations ask of the parts of the file system: with which parameters things are made,
//! what is set, and that an error of a part is handed on.

use crate::meta::store::{FileAttr, FileType};
use crate::vfs::error::VfsErrorView;
use crate::vfs::fs::{
    CreateFile, Exists, List, ReadFile, ReadInode, RemoveDir, RenameFile, Stat, Truncate,
    UnlinkFile, WriteFile, WriteInode,
};
use crate::vfs::op::{fs_fits, FsOperation, FsReply, FsRequestView, FsStepView};
use crate::vfs::walk::{MkdirP, MkdirState, Resolve, ResolveState};
use vstd::prelude::*;

verus! {

/// A file that is made by path is asked for as a file under the last name of the path, for
/// everyone to read and its owner to write, and belongs to user zero and group zero; a directory
/// on the way is asked for as a directory under the next name, which everyone may enter. Nothing
/// else is made.
pub proof fn law_what_is_made_by_path(s: CreateFile, d: MkdirState)
    ensures
        CreateFile::asks(s) matches FsRequestView::Create(p) ==> p.kind == FileType::File && p.name
            == s.name@ && p.mode == 0o644 && p.uid == 0 && p.gid == 0,
        MkdirP::asks(d) matches FsRequestView::Create(p) ==> p.kind == FileType::Dir && p.name
            == d.parts[d.at] && p.parent == d.current && p.mode == 0o755 && p.uid == 0 && p.gid
            == 0,
{
}

/// What sets a size sets the size alone: a truncation the size that is given, a write the end of
/// its bytes.
pub proof fn law_sizes_are_set_alone(t: Truncate, f: WriteFile, w: WriteInode)
    requires
        f.offset + f.data@.len() <= u64::MAX,
        WriteInode::ready(w),
    ensures
        Truncate::asks(t) matches FsRequestView::Setattr(_, m) ==> m.size == Some(t.size) && m.mode
            is None && m.uid is None && m.gid is None && m.atime is None && m.mtime is None,
        WriteFile::asks(f) matches FsRequestView::Setattr(_, m) ==> (m.size matches Some(n) && n
            == f.offset + f.data@.len()) && m.mode is None && m.uid is None && m.gid is None
            && m.atime is None && m.mtime is None,
        WriteInode::asks(w) matches FsRequestView::Setattr(at, m) ==> at == w.ino && (
        m.size matches Some(n) && w.offset <= n <= w.offset + w.data@.len()) && m.mode is None
            && m.uid is None && m.gid is None && m.atime is None && m.mtime is None,
{
}

/// The error that a reply holds.
pub open spec fn cause(reply: FsReply) -> Option<VfsErrorView> {
    match reply {
        FsReply::Path(Err(e)) => Some(e@),
        FsReply::Child(Err(e)) => Some(VfsErrorView::Meta(e@)),
        FsReply::Attr(Err(e)) => Some(VfsErrorView::Meta(e@)),
        FsReply::Entries(Err(e)) => Some(VfsErrorView::Meta(e@)),
        FsReply::Created(Err(e)) => Some(VfsErrorView::Meta(e@)),
        FsReply::Done(Err(e)) => Some(VfsErrorView::Meta(e@)),
        _ => None,
    }
}

/// Whether an operation that ends with an error after an error of a part ends with that error.
pub open spec fn hands_on<O: FsOperation>(s: O::State, reply: FsReply) -> bool {
    match (cause(reply), O::after(s, reply)) {
        (Some(e), FsStepView::Done(Err(end))) => fs_fits(O::asks(s), reply) ==> end == e,
        _ => true,
    }
}

/// An operation that a part fails ends, if it does not go on, with the error of the part.
pub proof fn law_errors_are_handed_on(
    create: CreateFile,
    list: List,
    unlink: UnlinkFile,
    remove: RemoveDir,
    rename: RenameFile,
    truncate: Truncate,
    write: WriteFile,
    write_inode: WriteInode,
    read_inode: ReadInode,
    read: ReadFile,
    mkdir: MkdirState,
    reply: FsReply,
)
    ensures
        hands_on::<CreateFile>(create, reply),
        hands_on::<List>(list, reply),
        hands_on::<UnlinkFile>(unlink, reply),
        hands_on::<RemoveDir>(remove, reply),
        hands_on::<RenameFile>(rename, reply),
        hands_on::<Truncate>(truncate, reply),
        hands_on::<WriteFile>(write, reply),
        hands_on::<WriteInode>(write_inode, reply),
        hands_on::<ReadInode>(read_inode, reply),
        hands_on::<ReadFile>(read, reply),
        hands_on::<MkdirP>(mkdir, reply),
{
}

/// A walk that fails names the path and says why.
pub proof fn law_failed_walk_names_the_path(s: ResolveState, reply: FsReply)
    requires
        reply is Child,
        reply->Child_0 is Err,
    ensures
        Resolve::after(s, reply) matches FsStepView::Done(Err(VfsErrorView::PathNotFound(text)))
            && text == s.path + ": "@ + (reply->Child_0->Err_0).text(),
{
}

/// Whether an operation ends with the error of a part that fails it.
pub open spec fn ends_with_error<O: FsOperation>(s: O::State, reply: FsReply) -> bool {
    match cause(reply) {
        Some(e) => fs_fits(O::asks(s), reply) ==> O::after(s, reply) == FsStepView::<
            O::State,
            O::Shown,
        >::Done(Err(e)),
        None => true,
    }
}

/// An error of a part ends a listing, a removal, a truncation, a read and a write to an inode. It
/// ends a move, unless it tells that the new path leads nowhere. A creation ends with the error of
/// the directories on the way and of the making itself, the making of directories with that of the
/// making of one; what cannot be looked up or looked at is made, or taken for a directory. A write
/// by path ends with the error of the path, and succeeds where only the size cannot be noted.
/// Attributes and existence are not there where a part fails.
pub proof fn law_errors_end_the_operations(
    create: CreateFile,
    stat: Stat,
    list: List,
    exists: Exists,
    unlink: UnlinkFile,
    remove: RemoveDir,
    rename: RenameFile,
    truncate: Truncate,
    write: WriteFile,
    write_inode: WriteInode,
    read_inode: ReadInode,
    read: ReadFile,
    mkdir: MkdirState,
    reply: FsReply,
)
    ensures
        ends_with_error::<List>(list, reply),
        ends_with_error::<UnlinkFile>(unlink, reply),
        ends_with_error::<RemoveDir>(remove, reply),
        ends_with_error::<Truncate>(truncate, reply),
        ends_with_error::<WriteInode>(write_inode, reply),
        ends_with_error::<ReadInode>(read_inode, reply),
        ends_with_error::<ReadFile>(read, reply),
        rename.phase !is Target ==> ends_with_error::<RenameFile>(rename, reply),
        CreateFile::asks(create) is MakeDirs || CreateFile::asks(create) is Create
            ==> ends_with_error::<CreateFile>(create, reply),
        CreateFile::asks(create) is Lookup && (reply matches FsReply::Child(Err(_)))
            ==> CreateFile::after(create, reply) is Next,
        CreateFile::asks(create) is Getattr && (reply matches FsReply::Attr(Err(_)))
            ==> CreateFile::after(create, reply) is Next,
        MkdirP::asks(mkdir) is Create ==> ends_with_error::<MkdirP>(mkdir, reply),
        MkdirP::asks(mkdir) is Resolve && (reply matches FsReply::Path(Err(_))) ==> MkdirP::after(
            mkdir,
            reply,
        ) is Next,
        WriteFile::asks(write) is Resolve ==> ends_with_error::<WriteFile>(write, reply),
        WriteFile::asks(write) is Setattr && reply is Attr ==> WriteFile::after(write, reply)
            == FsStepView::<WriteFile, usize>::Done(Ok(write.data@.len() as usize)),
        cause(reply) is Some && fs_fits(Stat::asks(stat), reply) ==> Stat::after(stat, reply)
            == FsStepView::<Stat, Option<FileAttr>>::Done(Ok(None)),
        cause(reply) is Some && fs_fits(Exists::asks(exists), reply) ==> Exists::after(exists, reply)
            == FsStepView::<Exists, bool>::Done(Ok(false)),
{
}

} // verus!
