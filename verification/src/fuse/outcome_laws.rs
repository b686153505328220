//! What the kernel is told of files and directories, in numbers and kinds.

use crate::fuse::adapter::{
    inode, FuseAdapter, FuseAttr, FuseCall, FuseKind, FusePhase, FuseRequest,
};
use crate::fuse::listing::{
    entry_at, law_plus_tells_the_listing, listing, plays, plus_listing, told_from, FuseEntryView,
    PlusAt, PlusState, ReaddirPlus,
};
use crate::meta::store::{DirEntry, FileAttr, FileType};
use crate::meta::types::Inode;
use crate::vfs::op::{fs_fits, FsOperation, FsReply, FsRequestView, FsStepView};
use crate::vfs::request_laws::cause;
use vstd::prelude::*;

verus! {

/// An inode keeps its number on the way to the kernel and back.
pub proof fn law_inodes_keep_their_numbers(ino: i64)
    ensures
        inode(ino as u64) == Inode(ino),
{
    assert(ino as u64 as i64 == ino) by (bit_vector);
}

/// Whether attributes for the kernel are those of a file or directory: its number, its size and
/// the least number of 512-byte blocks that hold it, a directory if and only if it is one, with
/// the bits that go with its kind, one link, and the user and the group of the adapter.
pub open spec fn attr_is_told(adapter: FuseAdapter, attr: FileAttr, told: FuseAttr) -> bool {
    &&& told.ino == attr.ino as u64
    &&& told.size == attr.size
    &&& 512 * told.blocks >= attr.size
    &&& 512 * told.blocks < attr.size + 512
    &&& told.kind == FuseKind::Directory <==> attr.kind == FileType::Dir
    &&& told.kind == FuseKind::RegularFile <==> attr.kind == FileType::File
    &&& told.perm == (if attr.kind == FileType::Dir {
        0o755u16
    } else {
        0o644u16
    })
    &&& told.nlink == 1
    &&& told.uid == adapter.uid
    &&& told.gid == adapter.gid
    &&& told.rdev == 0
    &&& told.blksize == 4096
}

/// The attributes that the kernel is told are those of the file or directory.
pub proof fn law_kernel_is_told_the_attributes(adapter: FuseAdapter, attr: FileAttr)
    ensures
        attr_is_told(adapter, attr, adapter.fuse_attr(attr)),
{
}

/// What the kernel asks to make is asked for under the name and in the directory that it gives,
/// with the mode that it gives, for the user and the group of the adapter; what it asks to set is
/// the size alone; what it asks to move or remove is asked for by the names that it gives.
pub proof fn law_kernel_gets_what_it_asks_for(
    adapter: FuseAdapter,
    at: i64,
    to: i64,
    name: String,
    new_name: String,
    mode: u32,
    size: u64,
)
    ensures
        ({
            let asks = |call: FuseCall| FuseRequest::asks(
                FuseRequest { adapter, call, phase: FusePhase::Act },
            );
            let node = at as u64;
            &&& asks(FuseCall::Mkdir { parent: node, name, mode }) matches FsRequestView::Create(p)
                && p.parent == Inode(at) && p.name == name@ && p.kind == FileType::Dir && p.mode
                == mode && p.uid == adapter.uid && p.gid == adapter.gid
            &&& asks(FuseCall::Create { parent: node, name, mode }) matches FsRequestView::Create(p)
                && p.parent == Inode(at) && p.name == name@ && p.kind == FileType::File && p.mode
                == mode && p.uid == adapter.uid && p.gid == adapter.gid
            &&& asks(FuseCall::Setattr { ino: node, size: Some(size) })
                matches FsRequestView::Setattr(ino, m) && ino == Inode(at) && m.size == Some(size)
                && m.mode is None && m.uid is None && m.gid is None && m.atime is None && m.mtime
                is None
            &&& asks(FuseCall::Lookup { parent: node, name }) == (FsRequestView::Lookup {
                parent: Inode(at),
                name: name@,
            })
            &&& asks(FuseCall::Getattr(node)) == FsRequestView::Getattr(Inode(at))
            &&& asks(FuseCall::Open(node)) == FsRequestView::Getattr(Inode(at))
            &&& asks(FuseCall::Unlink { parent: node, name }) == (FsRequestView::Unlink {
                parent: Inode(at),
                name: name@,
            })
            &&& asks(FuseCall::Rmdir { parent: node, name }) == (FsRequestView::Rmdir {
                parent: Inode(at),
                name: name@,
            })
            &&& asks(
                FuseCall::Rename { old_parent: node, old_name: name, new_parent: to as u64, new_name },
            ) == (FsRequestView::Rename {
                old_parent: Inode(at),
                old_name: name@,
                new_parent: Inode(to),
                new_name: new_name@,
            })
        }),
{
    law_inodes_keep_their_numbers(at);
    law_inodes_keep_their_numbers(to);
}

/// Whether an entry of a listing is the child of a directory at a place, with its inode and its
/// name, as a directory if and only if it is one, and an offset that counts the directory itself
/// and the root before it.
pub open spec fn is_child(e: FuseEntryView, entries: Seq<DirEntry>, i: int) -> bool {
    &&& 0 <= i < entries.len()
    &&& e.inode == entries[i].ino as u64
    &&& e.name == entries[i].name@
    &&& e.offset == i + 3
    &&& e.kind == FuseKind::Directory <==> entries[i].kind == FileType::Dir
}

/// Whether an entry of a listing is the directory itself.
pub open spec fn is_itself(e: FuseEntryView, parent: u64) -> bool {
    e.inode == parent && e.name == "."@ && e.kind == FuseKind::Directory && e.offset == 1
}

/// Whether an entry of a listing is the root in the place of the parent.
pub open spec fn is_upward(e: FuseEntryView) -> bool {
    e.inode == 1 && e.name == ".."@ && e.kind == FuseKind::Directory && e.offset == 2
}

/// A listing tells the directory itself, the root, and then every child of the directory as what
/// it is, in order, from the offset on.
pub proof fn law_listing_tells_every_child(parent: u64, entries: Seq<DirEntry>, offset: int, j: int)
    requires
        0 <= offset <= entries.len() + 2,
        0 <= j < entries.len() + 2 - offset,
    ensures
        listing(parent, entries, offset).len() == entries.len() + 2 - offset,
        ({
            let e = listing(parent, entries, offset)[j];
            &&& offset + j == 0 ==> is_itself(e, parent)
            &&& offset + j == 1 ==> is_upward(e)
            &&& offset + j >= 2 ==> is_child(e, entries, offset + j - 2)
        }),
{
}

/// Whether an entry with attributes is what there is to tell: the directory itself, the root, or a
/// child with a later offset, each with its own attributes.
pub open spec fn is_told_with_attributes(
    adapter: FuseAdapter,
    parent: u64,
    entries: Seq<DirEntry>,
    attrs: Map<i64, FileAttr>,
    offset: int,
    told: (FuseEntryView, FuseAttr),
) -> bool {
    told.0.offset > offset && ((is_itself(told.0, parent) && attr_is_told(
        adapter,
        attrs[parent as i64],
        told.1,
    )) || (is_upward(told.0) && attr_is_told(adapter, attrs[1], told.1)) || exists|i: int|
        #![trigger entries[i]]
        is_child(told.0, entries, i) && attrs.dom().contains(entries[i].ino) && attr_is_told(
            adapter,
            attrs[entries[i].ino],
            told.1,
        ))
}

/// From a child on, exactly the children are told whose attributes can be read.
proof fn lemma_told_from_is_right(
    adapter: FuseAdapter,
    parent: u64,
    entries: Seq<DirEntry>,
    attrs: Map<i64, FileAttr>,
    offset: int,
    i: int,
)
    requires
        0 <= i,
        offset <= i + 2,
    ensures
        forall|n: int|
            0 <= n < told_from(adapter, entries, attrs, i).len() ==> is_told_with_attributes(
                adapter,
                parent,
                entries,
                attrs,
                offset,
                #[trigger] told_from(adapter, entries, attrs, i)[n],
            ),
        forall|k: int|
            i <= k < entries.len() && attrs.dom().contains((#[trigger] entries[k]).ino)
                ==> exists|n: int|
                0 <= n < told_from(adapter, entries, attrs, i).len() && is_child(
                    (#[trigger] told_from(adapter, entries, attrs, i)[n]).0,
                    entries,
                    k,
                ),
    decreases entries.len() - i,
{
    let told = told_from(adapter, entries, attrs, i);
    if i < entries.len() {
        let rest = told_from(adapter, entries, attrs, i + 1);
        lemma_told_from_is_right(adapter, parent, entries, attrs, offset, i + 1);
        let head = (entry_at(entries[i], i), adapter.fuse_attr(attrs[entries[i].ino]));
        if attrs.dom().contains(entries[i].ino) {
            law_kernel_is_told_the_attributes(adapter, attrs[entries[i].ino]);
            assert(is_child(head.0, entries, i));
            assert(told[0] == head);
            assert forall|n: int| 0 < n < told.len() implies #[trigger] told[n] == rest[n - 1] by {}
            assert forall|k: int|
                i <= k < entries.len() && attrs.dom().contains(
                    (#[trigger] entries[k]).ino,
                ) implies exists|n: int|
                0 <= n < told.len() && is_child((#[trigger] told[n]).0, entries, k) by {
                if k == i {
                    assert(is_child(told[0].0, entries, k));
                } else {
                    let m = choose|m: int|
                        0 <= m < rest.len() && is_child((#[trigger] rest[m]).0, entries, k);
                    assert(told[m + 1] == rest[m]);
                }
            }
        }
    }
}

/// What is told with its own attributes has the kind of these, where the attributes say of the
/// children what the listing says.
proof fn lemma_kinds_agree(
    adapter: FuseAdapter,
    parent: u64,
    entries: Seq<DirEntry>,
    attrs: Map<i64, FileAttr>,
    offset: int,
    one: (FuseEntryView, FuseAttr),
)
    requires
        is_told_with_attributes(adapter, parent, entries, attrs, offset, one),
        forall|k: int|
            0 <= k < entries.len() && attrs.dom().contains((#[trigger] entries[k]).ino)
                ==> attrs[entries[k].ino].kind == entries[k].kind,
        attrs[1].kind == FileType::Dir,
        attrs[parent as i64].kind == FileType::Dir,
    ensures
        one.0.kind == one.1.kind,
{
}

/// A listing with attributes tells nothing but the directory itself, the root and the children
/// after the offset, each as what it is and with its own attributes, and leaves out no child whose
/// attributes can be read. Where the attributes say of a child what the listing says, the kind of
/// the entry is the kind in its attributes.
#[verifier::rlimit(40)]
pub proof fn law_plus_tells_every_child(
    adapter: FuseAdapter,
    parent: u64,
    offset: u64,
    entries: Seq<DirEntry>,
    attrs: Map<i64, FileAttr>,
    replies: Seq<FsReply>,
    end: Result<Seq<(FuseEntryView, FuseAttr)>, i32>,
)
    requires
        attrs.dom().contains(parent as i64),
        attrs.dom().contains(1),
        plays(
            PlusState { adapter, parent, offset, at: PlusAt::Entries },
            entries,
            attrs,
            replies,
            end,
        ),
    ensures
        end is Ok,
        forall|n: int|
            0 <= n < end->Ok_0.len() ==> is_told_with_attributes(
                adapter,
                parent,
                entries,
                attrs,
                offset as int,
                #[trigger] end->Ok_0[n],
            ),
        forall|k: int|
            0 <= k < entries.len() && k + 3 > offset && attrs.dom().contains(
                (#[trigger] entries[k]).ino,
            ) ==> exists|n: int|
                0 <= n < end->Ok_0.len() && is_child((#[trigger] end->Ok_0[n]).0, entries, k),
        offset == 0 ==> end->Ok_0.len() >= 2 && is_itself(end->Ok_0[0].0, parent) && is_upward(
            end->Ok_0[1].0,
        ),
        offset == 1 ==> end->Ok_0.len() >= 1 && is_upward(end->Ok_0[0].0),
        (forall|k: int|
            0 <= k < entries.len() && attrs.dom().contains((#[trigger] entries[k]).ino)
                ==> attrs[entries[k].ino].kind == entries[k].kind) && attrs[1].kind == FileType::Dir
            && attrs[parent as i64].kind == FileType::Dir ==> forall|n: int|
            0 <= n < end->Ok_0.len() ==> (#[trigger] end->Ok_0[n]).0.kind == end->Ok_0[n].1.kind,
{
    law_plus_tells_the_listing(adapter, parent, offset, entries, attrs, replies, end);
    let all = plus_listing(adapter, parent, entries, attrs, offset as int);
    let i = if offset <= 2 {
        0
    } else {
        offset - 2
    };
    let rest = told_from(adapter, entries, attrs, i);
    lemma_told_from_is_right(adapter, parent, entries, attrs, offset as int, i);
    law_kernel_is_told_the_attributes(adapter, attrs[parent as i64]);
    law_kernel_is_told_the_attributes(adapter, attrs[1]);
    let skipped = all.len() - rest.len();
    assert(skipped >= 0);
    assert forall|n: int| skipped <= n < all.len() implies #[trigger] all[n] == rest[n
        - skipped] by {}
    reveal_strlit(".");
    reveal_strlit("..");
    assert forall|n: int| 0 <= n < all.len() implies is_told_with_attributes(
        adapter,
        parent,
        entries,
        attrs,
        offset as int,
        #[trigger] all[n],
    ) by {
        if n >= skipped {
            assert(is_told_with_attributes(
                adapter,
                parent,
                entries,
                attrs,
                offset as int,
                rest[n - skipped],
            ));
        }
    }
    assert forall|k: int|
        0 <= k < entries.len() && k + 3 > offset && attrs.dom().contains(
            (#[trigger] entries[k]).ino,
        ) implies exists|n: int|
        0 <= n < all.len() && is_child((#[trigger] all[n]).0, entries, k) by {
        let m = choose|m: int|
            0 <= m < rest.len() && is_child((#[trigger] rest[m]).0, entries, k);
        assert(all[m + skipped] == rest[m]);
    }
    if (forall|k: int|
        0 <= k < entries.len() && attrs.dom().contains((#[trigger] entries[k]).ino)
            ==> attrs[entries[k].ino].kind == entries[k].kind) && attrs[1].kind == FileType::Dir
        && attrs[parent as i64].kind == FileType::Dir {
        assert forall|n: int| 0 <= n < all.len() implies (#[trigger] all[n]).0.kind
            == all[n].1.kind by {
            lemma_kinds_agree(adapter, parent, entries, attrs, offset as int, all[n]);
        }
    }
}

/// A listing with attributes fails with the code of a failed input or output where the entries,
/// the directory itself or the root cannot be read.
pub proof fn law_plus_fails_with_its_code(s: PlusState, reply: FsReply)
    requires
        s.at is Entries && (reply matches FsReply::Entries(Err(_))) || (s.at is Dot || s.at
            is DotDot) && (reply matches FsReply::Attr(Err(_))),
    ensures
        ReaddirPlus::after(s, reply) == FsStepView::<
            PlusState,
            Result<Seq<(FuseEntryView, FuseAttr)>, i32>,
        >::Done(Ok(Err(5i32))),
{
}

/// Whatever a part of the file system fails with, the kernel is told a code: that what was asked
/// for is not there where it was to be looked up, looked at or opened, or its attributes were, and
/// that the call failed where something was to be set, made, moved or removed.
pub proof fn law_kernel_is_told_of_every_failure(s: FuseRequest, reply: FsReply)
    requires
        fs_fits(FuseRequest::asks(s), reply),
        cause(reply) is Some,
        reply !is Path,
        reply !is Entries,
    ensures
        s.phase is Attr || s.call is Lookup || s.call is Getattr || s.call is Open
            ==> FuseRequest::after(s, reply) == FsStepView::<
            FuseRequest,
            Result<Option<FuseAttr>, i32>,
        >::Done(Ok(Err(2i32))),
        s.phase is Act && (s.call is Mkdir || s.call is Create || s.call is Unlink || s.call is Rmdir
            || s.call is Rename || s.call is Setattr) ==> FuseRequest::after(s, reply)
            == FsStepView::<FuseRequest, Result<Option<FuseAttr>, i32>>::Done(Ok(Err(5i32))),
{
}

} // verus!
