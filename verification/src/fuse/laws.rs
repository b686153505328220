//! What the kernel is told of the tree, and what its calls make of it.

use crate::fuse::adapter::{
    first_phase, fuse_kind, inode, FuseAdapter, FuseAttr, FuseCall, FuseRequest,
};
use crate::meta::etcd::store::blocks_of;
use crate::meta::store::FileType;
use crate::vfs::error::VfsErrorView;
use crate::vfs::op::{FsOperation, FsReply};
use crate::vfs::tree::{fs_runs, Tree};
use vstd::prelude::*;

verus! {

/// Whether the kernel is told what the tree says of an inode. The size of a directory is left to
/// the store.
pub open spec fn attr_told(t: Tree, adapter: FuseAdapter, ino: i64, a: FuseAttr) -> bool {
    &&& t.kinds[ino] == FileType::File ==> a.size == t.sizes[ino]
    &&& a == (FuseAttr {
        ino: ino as u64,
        size: a.size,
        blocks: blocks_of(a.size as int) as u64,
        kind: fuse_kind(t.kinds[ino]),
        perm: match t.kinds[ino] {
            FileType::Dir => 0o755,
            FileType::File => 0o644,
        },
        nlink: 1,
        uid: adapter.uid,
        gid: adapter.gid,
        rdev: 0,
        blksize: 4096,
    })
}

/// What a call of the kernel ends with: the tree, and attributes or a code.
pub type KernelEnd = (Tree, Result<Result<Option<FuseAttr>, i32>, VfsErrorView>);

/// The end of a call that is refused with a code.
pub open spec fn refused(t: Tree, code: i32) -> KernelEnd {
    (t, Ok(Err(code)))
}

/// The end of a call that is met without attributes.
pub open spec fn met(t: Tree) -> KernelEnd {
    (t, Ok(Ok(None)))
}

/// Whether a call leaves a tree and tells the attributes of an inode of it.
pub open spec fn tells_attr(t: Tree, adapter: FuseAdapter, ino: i64, end: KernelEnd) -> bool {
    end.0 == t && (end.1 matches Ok(Ok(Some(a))) && attr_told(t, adapter, ino, a))
}

/// Whether a call tells the attributes of an inode, if there is one.
pub open spec fn looked_at(t: Tree, adapter: FuseAdapter, ino: i64, end: KernelEnd) -> bool {
    if t.kinds.dom().contains(ino) {
        tells_attr(t, adapter, ino, end)
    } else {
        end == refused(t, 2)
    }
}

/// Whether a call makes an inode under a name, with a number that was not in use.
pub open spec fn made_for_kernel(
    t: Tree,
    adapter: FuseAdapter,
    parent: i64,
    name: Seq<char>,
    kind: FileType,
    end: KernelEnd,
) -> bool {
    if t.is(parent, FileType::Dir) && t.child(parent, name) is None {
        exists|ino: i64|
            !t.kinds.dom().contains(ino) && tells_attr(
                #[trigger] t.with(parent, name, ino, kind),
                adapter,
                ino,
                end,
            )
    } else {
        end == refused(t, 5)
    }
}

/// Whether a call of the kernel makes of the tree what it should, and is answered what the tree
/// then says.
pub open spec fn kernel_end(t: Tree, adapter: FuseAdapter, call: FuseCall, end: KernelEnd) -> bool {
    match call {
        FuseCall::Lookup { parent, name } => match t.child(inode(parent).0, name@) {
            Some(ino) => tells_attr(t, adapter, ino, end),
            None => end == refused(t, 2),
        },
        FuseCall::Getattr(ino) => looked_at(t, adapter, inode(ino).0, end),
        FuseCall::Setattr { ino, size: None } => looked_at(t, adapter, inode(ino).0, end),
        FuseCall::Setattr { ino, size: Some(size) } => {
            let at = inode(ino).0;
            if t.is(at, FileType::File) {
                tells_attr(t.resized(at, size), adapter, at, end)
            } else {
                end == refused(t, 5) || (t.kinds.dom().contains(at) && tells_attr(
                    t,
                    adapter,
                    at,
                    end,
                ))
            }
        },
        FuseCall::Mkdir { parent, name, .. } => made_for_kernel(
            t,
            adapter,
            inode(parent).0,
            name@,
            FileType::Dir,
            end,
        ),
        FuseCall::Create { parent, name, .. } => made_for_kernel(
            t,
            adapter,
            inode(parent).0,
            name@,
            FileType::File,
            end,
        ),
        FuseCall::Unlink { parent, name } => end == (if t.child(inode(parent).0, name@) matches Some(
            ino,
        ) && t.is(ino, FileType::File) {
            met(t.without(inode(parent).0, name@))
        } else {
            refused(t, 5)
        }),
        FuseCall::Rmdir { parent, name } => end == (if t.child(inode(parent).0, name@) matches Some(
            ino,
        ) && t.is(ino, FileType::Dir) && !t.has_entries(ino) {
            met(t.without(inode(parent).0, name@))
        } else {
            refused(t, 5)
        }),
        FuseCall::Rename { old_parent, old_name, new_parent, new_name } => {
            let moved = t.moved(inode(old_parent).0, old_name@, inode(new_parent).0, new_name@);
            if t.child(inode(old_parent).0, old_name@) is Some && t.is(
                inode(new_parent).0,
                FileType::Dir,
            ) {
                end == met(moved) || (end == refused(t, 5) && t.child(
                    inode(new_parent).0,
                    new_name@,
                ) is Some)
            } else {
                end == refused(t, 5)
            }
        },
        FuseCall::Open(ino) => end == (if t.kinds.dom().contains(inode(ino).0) {
            met(t)
        } else {
            refused(t, 2)
        }),
    }
}

/// A call of the kernel makes of the tree what it should, and the kernel is told what the tree
/// then says: the attributes of the inode that was looked up, read, set or made, or a code where
/// the call cannot be met. Where a new name of a move is taken, and where the size of a directory
/// is set, the parts of the file system may meet the call or refuse it.
pub proof fn law_kernel_is_told_the_tree(
    t: Tree,
    adapter: FuseAdapter,
    call: FuseCall,
    trace: Seq<(FsReply, Tree)>,
    end: KernelEnd,
)
    requires
        t.sound(),
        fs_runs::<FuseRequest>(
            FuseRequest { adapter, call, phase: first_phase(call) },
            t,
            trace,
            end,
        ),
    ensures
        kernel_end(t, adapter, call, end),
{
    reveal_with_fuel(fs_runs, 3);
    match call {
        FuseCall::Lookup { parent, name } => {
            let at = (inode(parent).0, name@);
            assert(t.names.dom().contains(at) ==> t.kinds.dom().contains(t.names[at]));
        },
        FuseCall::Mkdir { parent, name, .. } => {
            if let FsReply::Created(Ok(made)) = trace[0].0 {
                let t2 = t.with(inode(parent).0, name@, made.0.0, FileType::Dir);
                assert(tells_attr(t2, adapter, made.0.0, end));
            }
        },
        FuseCall::Create { parent, name, .. } => {
            if let FsReply::Created(Ok(made)) = trace[0].0 {
                let t2 = t.with(inode(parent).0, name@, made.0.0, FileType::File);
                assert(tells_attr(t2, adapter, made.0.0, end));
            }
        },
        _ => {},
    }
}

} // verus!
