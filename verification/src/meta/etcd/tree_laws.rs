//! The keys of the service as a tree, and what the operations make of it.

use crate::meta::etcd::kv::{runs, KeyView, Kv, Meaning, Operation, Reply};
use crate::meta::etcd::laws::{
    create_end, given_id, is_empty_dir, law_create_runs, law_getattr_runs, law_lookup_runs, law_readdir_runs,
    law_rename_runs, law_rmdir_runs, law_setattr_runs, law_unlink_runs, lemma_create_keeps_listed,
    lemma_rename_keeps_listed, lemma_rmdir_keeps_listed, lemma_setattr_keeps_listed,
    lemma_unlink_keeps_listed, listed, names_in, rename_end, rmdir_end, sane, setattr_end,
    unlink_end,
};
use crate::meta::etcd::store::{
    file_size, root_attr, Create, CreatePhase, Getattr, Lookup, Readdir,
    ReaddirState, Rename, RenamePhase, Rmdir, RmdirPhase, Setattr, SetattrPhase, Unlink, UnlinkPhase,
};
use crate::meta::store::{result_view, DirEntry, ErrorView, FileAttr, FileType, MetaError};
use crate::meta::types::{CreateParams, SetAttrMask};
use crate::vfs::op::{FsReply, FsRequest};
use crate::vfs::tree::{fs_answers, lists, Tree};
use vstd::prelude::*;

verus! {

/// Whether an inode is there: the root, or one with metadata.
pub open spec fn has_node(kv: Kv, ino: i64) -> bool {
    ino == 1 || kv.map.dom().contains(KeyView::Entry(ino))
}

/// Whether an inode is a file by its metadata. The root is none.
pub open spec fn is_file_node(kv: Kv, ino: i64) -> bool {
    ino != 1 && (kv.get(KeyView::Entry(ino)) matches Some(Meaning::Entry(info)) && info.is_file)
}

/// The kind of an inode.
pub open spec fn node_kind(kv: Kv, ino: i64) -> FileType {
    if is_file_node(kv, ino) {
        FileType::File
    } else {
        FileType::Dir
    }
}

/// The size of an inode; that of a directory is left at zero.
pub open spec fn node_size(kv: Kv, ino: i64) -> u64 {
    match kv.get(KeyView::Entry(ino)) {
        Some(Meaning::Entry(info)) => if is_file_node(kv, ino) {
            file_size(info)
        } else {
            0
        },
        _ => 0,
    }
}

/// The inode that a name stands for.
pub open spec fn named_node(kv: Kv, parent: i64, name: Seq<char>) -> i64 {
    match kv.get(KeyView::Forward(parent, name)) {
        Some(Meaning::Forward { inode, .. }) => inode,
        _ => 0,
    }
}

/// The tree that the keys stand for, with the bytes that the blocks hold.
pub open spec fn tree_of(kv: Kv, bytes: Map<(i64, int), u8>) -> Tree {
    Tree {
        root: 1,
        kinds: Map::new(|ino: i64| has_node(kv, ino), |ino: i64| node_kind(kv, ino)),
        sizes: Map::new(|ino: i64| has_node(kv, ino), |ino: i64| node_size(kv, ino)),
        names: Map::new(
            |at: (i64, Seq<char>)| kv.map.dom().contains(KeyView::Forward(at.0, at.1)),
            |at: (i64, Seq<char>)| named_node(kv, at.0, at.1),
        ),
        bytes,
    }
}

/// Whether a name stands for an inode that is there and of the kind that the name says.
pub open spec fn name_is_right(kv: Kv, parent: i64, name: Seq<char>) -> bool {
    kv.get(KeyView::Forward(parent, name)) matches Some(Meaning::Forward { inode, is_file, .. })
        && inode != 1 && has_node(kv, inode) && is_file_node(kv, inode) == is_file
}

/// What holds of the keys: each is of its kind, names and listings agree, a name stands for an
/// inode of its kind, an inode stands under one name, and the directories are what has a listing.
pub open spec fn keeps_a_tree(kv: Kv) -> bool {
    &&& sane(kv)
    &&& listed(kv)
    &&& !kv.map.dom().contains(KeyView::Entry(1))
    &&& forall|d: i64| #[trigger]
        kv.map.dom().contains(KeyView::Children(d)) <==> has_node(kv, d) && !is_file_node(kv, d)
    &&& forall|p: i64, n: Seq<char>| #[trigger]
        names_in(kv, p).contains(n) ==> kv.map.dom().contains(KeyView::Forward(p, n))
    &&& forall|p: i64, n: Seq<char>| #[trigger]
        kv.map.dom().contains(KeyView::Forward(p, n)) ==> name_is_right(kv, p, n)
    &&& forall|p: i64, n: Seq<char>, q: i64, m: Seq<char>|
        #![trigger kv.map.dom().contains(KeyView::Forward(p, n)),
            kv.map.dom().contains(KeyView::Forward(q, m))]
        kv.map.dom().contains(KeyView::Forward(p, n)) && kv.map.dom().contains(
            KeyView::Forward(q, m),
        ) && named_node(kv, p, n) == named_node(kv, q, m) ==> p == q && n == m
}

/// The keys stand for a sound tree.
pub proof fn law_keys_stand_for_a_tree(kv: Kv, bytes: Map<(i64, int), u8>)
    requires
        keeps_a_tree(kv),
    ensures
        tree_of(kv, bytes).sound(),
{
    let t = tree_of(kv, bytes);
    assert(t.sizes.dom() =~= t.kinds.dom());
    assert forall|at: (i64, Seq<char>)| #[trigger] t.names.dom().contains(at) implies t.is(
        at.0,
        FileType::Dir,
    ) && t.kinds.dom().contains(t.names[at]) && t.names[at] != t.root by {
        assert(kv.map.dom().contains(KeyView::Forward(at.0, at.1)));
        assert(kv.map.dom().contains(KeyView::Children(at.0)));
        assert(name_is_right(kv, at.0, at.1));
    }
    assert forall|a: (i64, Seq<char>), b: (i64, Seq<char>)| #[trigger]
        t.names.dom().contains(a) && #[trigger] t.names.dom().contains(b) && t.names[a]
            == t.names[b] implies a == b by {
        assert(kv.map.dom().contains(KeyView::Forward(a.0, a.1)));
        assert(kv.map.dom().contains(KeyView::Forward(b.0, b.1)));
    }
}

/// The service after the root directory was prepared on it stands for a tree of the root alone.
pub proof fn law_fresh_root_is_a_tree(kv: Kv, bytes: Map<(i64, int), u8>)
    requires
        kv.map == Map::<KeyView, (Meaning, int)>::empty(),
    ensures
        ({
            let root = Meaning::Children { inode: 1, names: Set::empty() };
            let kv2 = kv.put(KeyView::Children(1), root);
            keeps_a_tree(kv2) && tree_of(kv2, bytes).names == Map::<(i64, Seq<char>), i64>::empty()
        }),
{
    let root = Meaning::Children { inode: 1, names: Set::empty() };
    let kv2 = kv.put(KeyView::Children(1), root);
    assert(tree_of(kv2, bytes).names =~= Map::empty());
}

/// A creation under a number that was not in use adds the inode to the tree.
proof fn lemma_create(
    kv: Kv,
    bytes: Map<(i64, int), u8>,
    params: CreateParams,
    now: i64,
    ino: i64,
)
    requires
        keeps_a_tree(kv),
        !has_node(kv, ino),
        create_end(kv, params, now, ino).1 is Ok,
    ensures
        keeps_a_tree(create_end(kv, params, now, ino).0),
        tree_of(create_end(kv, params, now, ino).0, bytes) == tree_of(kv, bytes).with(
            params.parent.0,
            params.name@,
            ino,
            params.kind,
        ),
{
    let kv2 = create_end(kv, params, now, ino).0;
    let parent = params.parent.0;
    let name = params.name@;
    assert(!kv.map.dom().contains(KeyView::Children(ino)));
    lemma_create_keeps_listed(kv, params, now, ino);
    assert(has_node(kv, parent)) by {
        assert(kv.map.dom().contains(KeyView::Children(parent)));
    }
    assert forall|i: i64| i != ino implies #[trigger] has_node(kv2, i) == has_node(kv, i)
        && is_file_node(kv2, i) == is_file_node(kv, i) && node_size(kv2, i) == node_size(kv, i) by {}
    assert(has_node(kv2, ino) && is_file_node(kv2, ino) == (params.kind == FileType::File));
    assert(node_size(kv2, ino) == 0);
    assert forall|p: i64, n: Seq<char>| #[trigger]
        kv2.map.dom().contains(KeyView::Forward(p, n)) implies name_is_right(kv2, p, n) && (
    named_node(kv2, p, n) == ino ==> p == parent && n == name) by {
        if !(p == parent && n == name) {
            assert(kv.map.dom().contains(KeyView::Forward(p, n)));
            assert(name_is_right(kv, p, n));
            assert(has_node(kv2, named_node(kv, p, n)) == has_node(kv, named_node(kv, p, n)));
        }
    }
    assert forall|p: i64, n: Seq<char>| #[trigger]
        names_in(kv2, p).contains(n) implies kv2.map.dom().contains(KeyView::Forward(p, n)) by {
        if !(p == parent && n == name) && p != ino {
            assert(names_in(kv, p).contains(n));
        }
    }
    assert forall|d: i64| #[trigger]
        kv2.map.dom().contains(KeyView::Children(d)) <==> has_node(kv2, d) && !is_file_node(
            kv2,
            d,
        ) by {
        assert(kv.map.dom().contains(KeyView::Children(d)) <==> has_node(kv, d) && !is_file_node(
            kv,
            d,
        ));
    }
    let t = tree_of(kv, bytes).with(parent, name, ino, params.kind);
    let t2 = tree_of(kv2, bytes);
    assert(t2.kinds =~= t.kinds);
    assert(t2.sizes =~= t.sizes);
    assert(t2.names =~= t.names);
}

/// An update sets the size of a file in the tree, and nothing else there.
proof fn lemma_setattr(
    kv: Kv,
    bytes: Map<(i64, int), u8>,
    ino: i64,
    mask: SetAttrMask,
    now: i64,
)
    requires
        keeps_a_tree(kv),
        setattr_end(kv, ino, mask, now).1 is Ok,
    ensures
        keeps_a_tree(setattr_end(kv, ino, mask, now).0),
        has_node(kv, ino),
        tree_of(setattr_end(kv, ino, mask, now).0, bytes) == (match mask.size {
            Some(size) => tree_of(kv, bytes).resized(ino, size),
            None => tree_of(kv, bytes),
        }),
        is_file_node(kv, ino) ==> setattr_end(kv, ino, mask, now).1->Ok_0.size == node_size(
            setattr_end(kv, ino, mask, now).0,
            ino,
        ),
{
    let kv2 = setattr_end(kv, ino, mask, now).0;
    lemma_setattr_keeps_listed(kv, ino, mask, now);
    assert forall|i: i64| #[trigger] has_node(kv2, i) == has_node(kv, i) && is_file_node(kv2, i)
        == is_file_node(kv, i) && (i != ino ==> node_size(kv2, i) == node_size(kv, i)) by {}
    if let Some(size) = mask.size {
        assert(size as i64 as u64 == size) by (bit_vector);
        assert(is_file_node(kv, ino) ==> node_size(kv2, ino) == size);
    }
    assert forall|p: i64, n: Seq<char>| #[trigger]
        kv2.map.dom().contains(KeyView::Forward(p, n)) implies name_is_right(kv2, p, n) by {
        assert(kv.map.dom().contains(KeyView::Forward(p, n)));
        assert(has_node(kv2, named_node(kv, p, n)) == has_node(kv, named_node(kv, p, n)));
    }
    assert forall|p: i64, n: Seq<char>| #[trigger]
        names_in(kv2, p).contains(n) implies kv2.map.dom().contains(KeyView::Forward(p, n)) by {
        assert(names_in(kv, p).contains(n));
    }
    assert forall|d: i64| #[trigger]
        kv2.map.dom().contains(KeyView::Children(d)) <==> has_node(kv2, d) && !is_file_node(
            kv2,
            d,
        ) by {
        assert(kv.map.dom().contains(KeyView::Children(d)) <==> has_node(kv, d) && !is_file_node(
            kv,
            d,
        ));
    }
    let t = match mask.size {
        Some(size) => tree_of(kv, bytes).resized(ino, size),
        None => tree_of(kv, bytes),
    };
    let t2 = tree_of(kv2, bytes);
    assert(t2.kinds =~= t.kinds);
    assert(t2.sizes =~= t.sizes);
    assert(t2.names =~= t.names);
}

/// What a removal takes away: the name, and its inode with what belongs to it.
spec fn is_removal(kv: Kv, kv2: Kv, parent: i64, name: Seq<char>) -> bool {
    let ino = named_node(kv, parent, name);
    &&& forall|p: i64, n: Seq<char>|
        #![trigger kv2.map.dom().contains(KeyView::Forward(p, n))]
        #![trigger kv2.get(KeyView::Forward(p, n))]
        kv2.get(KeyView::Forward(p, n)) == (if p == parent && n == name {
            None
        } else {
            kv.get(KeyView::Forward(p, n))
        })
    &&& forall|i: i64|
        #![trigger kv2.map.dom().contains(KeyView::Entry(i))]
        #![trigger kv2.get(KeyView::Entry(i))]
        kv2.get(KeyView::Entry(i)) == (if i == ino {
            None
        } else {
            kv.get(KeyView::Entry(i))
        })
    &&& forall|d: i64| #[trigger]
        kv2.map.dom().contains(KeyView::Children(d)) <==> d != ino && kv.map.dom().contains(
            KeyView::Children(d),
        )
    &&& forall|d: i64, n: Seq<char>| #[trigger]
        names_in(kv2, d).contains(n) ==> names_in(kv, d).contains(n) && !(d == parent && n == name)
}

/// A removal takes the name and its inode out of the tree.
proof fn lemma_removal(
    kv: Kv,
    kv2: Kv,
    bytes: Map<(i64, int), u8>,
    parent: i64,
    name: Seq<char>,
)
    requires
        keeps_a_tree(kv),
        kv.map.dom().contains(KeyView::Forward(parent, name)),
        is_removal(kv, kv2, parent, name),
        sane(kv2),
        listed(kv2),
    ensures
        keeps_a_tree(kv2),
        tree_of(kv2, bytes) == tree_of(kv, bytes).without(parent, name),
{
    let ino = named_node(kv, parent, name);
    assert(name_is_right(kv, parent, name));
    assert forall|i: i64| i != ino implies #[trigger] has_node(kv2, i) == has_node(kv, i)
        && is_file_node(kv2, i) == is_file_node(kv, i) && node_size(kv2, i) == node_size(kv, i) by {
        assert(kv2.get(KeyView::Entry(i)) == kv.get(KeyView::Entry(i)));
    }
    assert(!has_node(kv2, ino));
    assert forall|p: i64, n: Seq<char>| #[trigger]
        kv2.map.dom().contains(KeyView::Forward(p, n)) implies kv.map.dom().contains(
        KeyView::Forward(p, n),
    ) && name_is_right(kv2, p, n) && named_node(kv2, p, n) == named_node(kv, p, n) by {
        assert(kv2.get(KeyView::Forward(p, n)) == kv.get(KeyView::Forward(p, n)));
        assert(kv.map.dom().contains(KeyView::Forward(p, n)));
        assert(name_is_right(kv, p, n));
        assert(named_node(kv, p, n) != ino);
        assert(has_node(kv2, named_node(kv, p, n)) == has_node(kv, named_node(kv, p, n)));
    }
    assert forall|p: i64, n: Seq<char>| #[trigger]
        names_in(kv2, p).contains(n) implies kv2.map.dom().contains(KeyView::Forward(p, n)) by {
        assert(kv.map.dom().contains(KeyView::Forward(p, n)));
        assert(kv2.get(KeyView::Forward(p, n)) == kv.get(KeyView::Forward(p, n)));
    }
    assert forall|d: i64| #[trigger]
        kv2.map.dom().contains(KeyView::Children(d)) <==> has_node(kv2, d) && !is_file_node(
            kv2,
            d,
        ) by {
        assert(kv.map.dom().contains(KeyView::Children(d)) <==> has_node(kv, d) && !is_file_node(
            kv,
            d,
        ));
    }
    let t = tree_of(kv, bytes).without(parent, name);
    let t2 = tree_of(kv2, bytes);
    assert(t2.kinds =~= t.kinds);
    assert(t2.sizes =~= t.sizes);
    assert forall|at: (i64, Seq<char>)| #[trigger]
        t2.names.dom().contains(at) == t.names.dom().contains(at) && (t.names.dom().contains(at)
            ==> t2.names[at] == t.names[at]) by {
        assert(kv2.get(KeyView::Forward(at.0, at.1)) == (if at == (parent, name) {
            None
        } else {
            kv.get(KeyView::Forward(at.0, at.1))
        }));
    }
    assert(t2.names =~= t.names);
}

/// A move moves the name in the tree.
proof fn lemma_rename(
    kv: Kv,
    bytes: Map<(i64, int), u8>,
    old_parent: i64,
    old_name: Seq<char>,
    new_parent: i64,
    new_name: Seq<char>,
)
    requires
        keeps_a_tree(kv),
        rename_end(kv, old_parent, old_name, new_parent, new_name).1 is Ok,
    ensures
        keeps_a_tree(rename_end(kv, old_parent, old_name, new_parent, new_name).0),
        tree_of(rename_end(kv, old_parent, old_name, new_parent, new_name).0, bytes) == tree_of(
            kv,
            bytes,
        ).moved(old_parent, old_name, new_parent, new_name),
{
    let kv2 = rename_end(kv, old_parent, old_name, new_parent, new_name).0;
    let ino = named_node(kv, old_parent, old_name);
    lemma_rename_keeps_listed(kv, old_parent, old_name, new_parent, new_name);
    assert(kv.map.dom().contains(KeyView::Forward(old_parent, old_name)));
    assert(name_is_right(kv, old_parent, old_name));
    assert(kv.map.dom().contains(KeyView::Children(old_parent)));
    assert forall|i: i64| #[trigger] has_node(kv2, i) == has_node(kv, i) && is_file_node(kv2, i)
        == is_file_node(kv, i) && node_size(kv2, i) == node_size(kv, i) by {}
    assert forall|p: i64, n: Seq<char>| #[trigger]
        kv2.map.dom().contains(KeyView::Forward(p, n)) implies name_is_right(kv2, p, n) && (if p
        == new_parent && n == new_name {
        named_node(kv2, p, n) == ino
    } else {
        kv.map.dom().contains(KeyView::Forward(p, n)) && named_node(kv2, p, n) == named_node(
            kv,
            p,
            n,
        ) && named_node(kv2, p, n) != ino
    }) by {
        if p == new_parent && n == new_name {
            assert(has_node(kv2, ino) == has_node(kv, ino));
        } else {
            assert(kv.map.dom().contains(KeyView::Forward(p, n)));
            assert(name_is_right(kv, p, n));
            assert(has_node(kv2, named_node(kv, p, n)) == has_node(kv, named_node(kv, p, n)));
        }
    }
    assert forall|p: i64, n: Seq<char>| #[trigger]
        names_in(kv2, p).contains(n) implies kv2.map.dom().contains(KeyView::Forward(p, n)) by {
        if !(p == new_parent && n == new_name) {
            assert(names_in(kv, p).contains(n));
        }
    }
    assert forall|d: i64| #[trigger]
        kv2.map.dom().contains(KeyView::Children(d)) <==> has_node(kv2, d) && !is_file_node(
            kv2,
            d,
        ) by {
        assert(kv.map.dom().contains(KeyView::Children(d)) <==> has_node(kv, d) && !is_file_node(
            kv,
            d,
        ));
    }
    let t = tree_of(kv, bytes).moved(old_parent, old_name, new_parent, new_name);
    let t2 = tree_of(kv2, bytes);
    assert(t2.kinds =~= t.kinds);
    assert(t2.sizes =~= t.sizes);
    assert(t2.names =~= t.names);
}

/// A listing that was read to its end, over views.
pub open spec fn listing_view(r: Result<Vec<DirEntry>, MetaError>) -> Result<
    Seq<DirEntry>,
    ErrorView,
> {
    match r {
        Ok(list) => Ok(list@),
        Err(e) => Err(e@),
    }
}

/// A listing holds exactly the children of the directory in the tree.
proof fn lemma_listing(
    kv: Kv,
    bytes: Map<(i64, int), u8>,
    ino: i64,
    trace: Seq<(Reply, Kv)>,
    kv2: Kv,
    list: Vec<DirEntry>,
)
    requires
        keeps_a_tree(kv),
        runs::<Readdir>(
            ReaddirState::Names { ino },
            kv,
            trace,
            (kv2, Ok::<Seq<DirEntry>, ErrorView>(list@)),
        ),
    ensures
        kv2 == kv,
        lists(tree_of(kv, bytes), ino, list@),
{
    let t = tree_of(kv, bytes);
    let end = (kv2, Ok::<Seq<DirEntry>, ErrorView>(list@));
    law_readdir_runs(kv, ino, trace, end);
    assert forall|i: int| 0 <= i < list@.len() implies t.child(ino, (#[trigger] list@[i]).name@)
        == Some(list@[i].ino) && t.kinds.dom().contains(list@[i].ino) && list@[i].kind
        == t.kinds[list@[i].ino] by {
        let e = end.1->Ok_0[i];
        assert(kv.map.dom().contains(KeyView::Forward(ino, e.name@)));
        assert(name_is_right(kv, ino, e.name@));
    }
    assert forall|name: Seq<char>| #[trigger] t.child(ino, name) is Some implies exists|i: int|
        0 <= i < list@.len() && (#[trigger] list@[i]).name@ == name by {
        assert(kv.map.dom().contains(KeyView::Forward(ino, name)));
        assert(names_in(kv, ino).contains(name));
        let j = choose|j: int|
            0 <= j < end.1->Ok_0.len() && #[trigger] end.1->Ok_0[j].name@ == name;
        assert(list@[j].name@ == name);
    }
}

/// Whether the store, asked a request at a time on service state `kv`, begins as its operations
/// say, runs undisturbed through the replies of `trace`, ends with the reply and leaves the
/// service as `kv2`.
pub open spec fn store_serves(
    kv: Kv,
    req: FsRequest,
    now: i64,
    trace: Seq<(Reply, Kv)>,
    reply: FsReply,
    kv2: Kv,
) -> bool {
    match req {
        FsRequest::Lookup { parent, name } => reply matches FsReply::Child(r) && runs::<Lookup>(
            Lookup { parent, name },
            kv,
            trace,
            (kv2, result_view(r)),
        ),
        FsRequest::Getattr(ino) => reply matches FsReply::Attr(r) && if ino.0 == 1 {
            kv2 == kv && r == Ok::<FileAttr, MetaError>(root_attr(now))
        } else {
            runs::<Getattr>(Getattr { ino }, kv, trace, (kv2, result_view(r)))
        },
        FsRequest::Readdir(ino) => reply matches FsReply::Entries(r) && runs::<Readdir>(
            ReaddirState::Names { ino: ino.0 },
            kv,
            trace,
            (kv2, listing_view(r)),
        ),
        FsRequest::Create(params) => reply matches FsReply::Created(r) && runs::<Create>(
            Create { params, now, retry: 0, phase: CreatePhase::Parent },
            kv,
            trace,
            (kv2, result_view(r)),
        ),
        FsRequest::Setattr(ino, mask) => reply matches FsReply::Attr(r) && if mask
            != SetAttrMask::nothing() {
            runs::<Setattr>(
                Setattr { ino, mask, now, phase: SetattrPhase::Read },
                kv,
                trace,
                (kv2, result_view(r)),
            )
        } else if ino.0 == 1 {
            kv2 == kv && r == Ok::<FileAttr, MetaError>(root_attr(now))
        } else {
            runs::<Setattr>(
                Setattr { ino, mask, now, phase: SetattrPhase::ReadBack },
                kv,
                trace,
                (kv2, result_view(r)),
            )
        },
        FsRequest::Unlink { parent, name } => reply matches FsReply::Done(r) && runs::<Unlink>(
            Unlink { parent, name, retry: 0, phase: UnlinkPhase::Source },
            kv,
            trace,
            (kv2, result_view(r)),
        ),
        FsRequest::Rmdir { parent, name } => reply matches FsReply::Done(r) && runs::<Rmdir>(
            Rmdir { parent, name, retry: 0, phase: RmdirPhase::Source },
            kv,
            trace,
            (kv2, result_view(r)),
        ),
        FsRequest::Rename { old_parent, old_name, new_parent, new_name } => reply matches FsReply::Done(
            r,
        ) && runs::<Rename>(
            Rename {
                old_parent,
                old_name,
                new_parent,
                new_name,
                retry: 0,
                phase: RenamePhase::Source,
            },
            kv,
            trace,
            (kv2, result_view(r)),
        ),
        _ => false,
    }
}

/// Whether the numbers that were given out in a run were not in use.
pub open spec fn fresh_numbers(kv: Kv, trace: Seq<(Reply, Kv)>) -> bool {
    forall|i: int|
        0 <= i < trace.len() ==> ((#[trigger] trace[i]).0 matches Reply::Id(ino) ==> !has_node(
            kv,
            ino,
        ))
}

/// A creation whose run was given fresh numbers.
proof fn lemma_creation_answers(
    kv: Kv,
    bytes: Map<(i64, int), u8>,
    params: CreateParams,
    now: i64,
    trace: Seq<(Reply, Kv)>,
    reply: FsReply,
    kv2: Kv,
)
    requires
        keeps_a_tree(kv),
        fresh_numbers(kv, trace),
        store_serves(kv, FsRequest::Create(params), now, trace, reply, kv2),
    ensures
        keeps_a_tree(kv2),
        fs_answers(
            tree_of(kv, bytes),
            FsRequest::Create(params)@,
            reply,
            tree_of(kv2, bytes),
        ),
{
    let r = reply->Created_0;
    let k = KeyView::Children(params.parent.0);
    assert(kv.map.dom().contains(k) <==> has_node(kv, params.parent.0) && !is_file_node(
        kv,
        params.parent.0,
    ));
    assert(kv.map.dom().contains(k) ==> kv.map[k].0 is Children);
    law_create_runs(kv, params, now, trace, (kv2, result_view(r)));
    reveal_with_fuel(runs, 4);
    if r is Ok {
        let ino = given_id(trace);
        assert(trace[2].0 == Reply::Id(ino));
        lemma_create(kv, bytes, params, now, ino);
    }
}

/// Every request that the store is asked, and that nobody disturbs, is answered by what the tree
/// of the keys says, and makes of the tree what it should: on the keys of a tree a client is told
/// of that tree, and the keys after the request are those of the tree after it.
pub proof fn law_store_answers_for_its_tree(
    kv: Kv,
    bytes: Map<(i64, int), u8>,
    req: FsRequest,
    now: i64,
    trace: Seq<(Reply, Kv)>,
    reply: FsReply,
    kv2: Kv,
)
    requires
        keeps_a_tree(kv),
        fresh_numbers(kv, trace),
        store_serves(kv, req, now, trace, reply, kv2),
    ensures
        keeps_a_tree(kv2),
        fs_answers(tree_of(kv, bytes), req@, reply, tree_of(kv2, bytes)),
{
    let t = tree_of(kv, bytes);
    match req {
        FsRequest::Lookup { parent, name } => {
            let r = reply->Child_0;
            law_lookup_runs(kv, parent.0, name, trace, (kv2, result_view(r)));
            let k = KeyView::Forward(parent.0, name@);
            assert(kv.map.dom().contains(k) ==> kv.map[k].0 is Forward);
        },
        FsRequest::Getattr(ino) => {
            if ino.0 != 1 {
                let r = reply->Attr_0;
                law_getattr_runs(kv, ino.0, trace, (kv2, result_view(r)));
                let k = KeyView::Entry(ino.0);
                assert(kv.map.dom().contains(k) ==> kv.map[k].0 is Entry);
            }
        },
        FsRequest::Readdir(ino) => {
            let r = reply->Entries_0;
            law_readdir_runs(kv, ino.0, trace, (kv2, listing_view(r)));
            if let Ok(list) = r {
                lemma_listing(kv, bytes, ino.0, trace, kv2, list);
            }
        },
        FsRequest::Create(params) => {
            lemma_creation_answers(kv, bytes, params, now, trace, reply, kv2);
        },
        FsRequest::Setattr(ino, mask) => {
            let r = reply->Attr_0;
            let k = KeyView::Entry(ino.0);
            assert(kv.map.dom().contains(k) ==> kv.map[k].0 is Entry);
            if mask != SetAttrMask::nothing() {
                law_setattr_runs(kv, ino.0, mask, now, trace, (kv2, result_view(r)));
                if r is Ok {
                    lemma_setattr(kv, bytes, ino.0, mask, now);
                }
            }
        },
        FsRequest::Unlink { parent, name } => {
            let r = reply->Done_0;
            law_unlink_runs(kv, parent.0, name, trace, (kv2, result_view(r)));
            lemma_unlink_answers(kv, bytes, parent.0, name@);
        },
        FsRequest::Rmdir { parent, name } => {
            let r = reply->Done_0;
            law_rmdir_runs(kv, parent.0, name, trace, (kv2, result_view(r)));
            lemma_rmdir_answers(kv, bytes, parent.0, name@);
        },
        FsRequest::Rename { old_parent, old_name, new_parent, new_name } => {
            let r = reply->Done_0;
            law_rename_runs(
                kv,
                old_parent.0,
                old_name,
                new_parent.0,
                new_name,
                trace,
                (kv2, result_view(r)),
            );
            let k = KeyView::Forward(old_parent.0, old_name@);
            let d = KeyView::Children(new_parent.0);
            assert(kv.map.dom().contains(k) ==> kv.map[k].0 is Forward);
            assert(kv.map.dom().contains(d) ==> kv.map[d].0 is Children);
            assert(kv.map.dom().contains(d) <==> has_node(kv, new_parent.0) && !is_file_node(
                kv,
                new_parent.0,
            ));
            if r is Ok {
                lemma_rename(kv, bytes, old_parent.0, old_name@, new_parent.0, new_name@);
            }
        },
        _ => {},
    }
}

/// The removal of a file: when it succeeds, and what it leaves.
proof fn lemma_unlink_answers(kv: Kv, bytes: Map<(i64, int), u8>, parent: i64, name: Seq<char>)
    requires
        keeps_a_tree(kv),
    ensures
        ({
            let t = tree_of(kv, bytes);
            let end = unlink_end(kv, parent, name);
            &&& end.1 is Ok <==> (t.child(parent, name) matches Some(ino) && t.is(
                ino,
                FileType::File,
            ))
            &&& end.1 is Ok ==> keeps_a_tree(end.0) && tree_of(end.0, bytes) == t.without(
                parent,
                name,
            )
            &&& end.1 is Err ==> end.0 == kv
        }),
{
    let k = KeyView::Forward(parent, name);
    let end = unlink_end(kv, parent, name);
    assert(kv.map.dom().contains(k) ==> kv.map[k].0 is Forward);
    assert(kv.map.dom().contains(k) ==> name_is_right(kv, parent, name));
    if end.1 is Ok {
        let ino = named_node(kv, parent, name);
        lemma_unlink_keeps_listed(kv, parent, name);
        assert(kv.map.dom().contains(KeyView::Children(ino)) <==> has_node(kv, ino)
            && !is_file_node(kv, ino));
        assert(kv.map.dom().contains(KeyView::Children(parent)));
        assert(is_removal(kv, end.0, parent, name));
        lemma_removal(kv, end.0, bytes, parent, name);
    }
}

/// The removal of a directory: when it succeeds, and what it leaves.
proof fn lemma_rmdir_answers(kv: Kv, bytes: Map<(i64, int), u8>, parent: i64, name: Seq<char>)
    requires
        keeps_a_tree(kv),
    ensures
        ({
            let t = tree_of(kv, bytes);
            let end = rmdir_end(kv, parent, name);
            &&& end.1 is Ok <==> (t.child(parent, name) matches Some(ino) && t.is(
                ino,
                FileType::Dir,
            ) && !t.has_entries(ino))
            &&& end.1 is Ok ==> keeps_a_tree(end.0) && tree_of(end.0, bytes) == t.without(
                parent,
                name,
            )
            &&& end.1 is Err ==> end.0 == kv
        }),
{
    let t = tree_of(kv, bytes);
    let k = KeyView::Forward(parent, name);
    let end = rmdir_end(kv, parent, name);
    assert(kv.map.dom().contains(k) ==> kv.map[k].0 is Forward);
    assert(kv.map.dom().contains(k) ==> name_is_right(kv, parent, name));
    if kv.map.dom().contains(k) {
        let ino = named_node(kv, parent, name);
        let own = KeyView::Children(ino);
        assert(kv.map.dom().contains(own) ==> kv.map[own].0 is Children);
        assert(kv.map.dom().contains(KeyView::Children(parent)));
        assert(names_in(kv, parent).contains(name));
        if t.has_entries(ino) {
            let n = choose|n: Seq<char>| #[trigger] t.names.dom().contains((ino, n));
            assert(kv.map.dom().contains(KeyView::Forward(ino, n)));
            assert(names_in(kv, ino).contains(n));
            assert(!is_empty_dir(kv, ino));
        } else if !is_empty_dir(kv, ino) {
            let names = names_in(kv, ino);
            assert(exists|n: Seq<char>| names.contains(n)) by {
                if forall|n: Seq<char>| !names.contains(n) {
                    assert(names =~= Set::empty());
                }
            }
            let n = choose|n: Seq<char>| names.contains(n);
            assert(kv.map.dom().contains(KeyView::Forward(ino, n)));
            assert(t.names.dom().contains((ino, n)));
        }
        if end.1 is Ok {
            lemma_rmdir_keeps_listed(kv, parent, name);
            assert(is_removal(kv, end.0, parent, name));
            lemma_removal(kv, end.0, bytes, parent, name);
        }
    }
}

} // verus!
