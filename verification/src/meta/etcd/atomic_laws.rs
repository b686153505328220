//! What the transactional operations on the key-value service do as a whole.

use crate::meta::entities::EtcdEntryInfo;
use crate::meta::etcd::atomic_store::{
    fresh_info, names_told, only_names, CreateNode, CreateNodeStage, CreateNodeState, Found, Moved,
    RemoveNode, RemoveNodeStage, RemoveNodeState, RenameNode, RenameNodeStage, RenameNodeState,
};
use crate::meta::etcd::cas::{Change, UpdateChildren, UpdateShape, UpdateState};
use crate::meta::etcd::kv::{
    answers, lemma_written_push, name_set, runs, CheckView, KeyView, Kv, Meaning, Operation, Reply,
    RequestView, Shape, Value, WriteView,
};
use crate::meta::etcd::store::as_read;
use crate::meta::store::{ErrorView, StepView};
use vstd::prelude::*;

verus! {

/// Every key holds the kind of value that its prefix says, and was last written
/// at a revision between one and the current one.
pub open spec fn well_kept(kv: Kv) -> bool {
    &&& kv.revision >= 0
    &&& forall|k: KeyView| #[trigger]
        kv.map.dom().contains(k) ==> 0 < kv.map[k].1 <= kv.revision && match k {
            KeyView::Forward(_, _) => kv.map[k].0 is Forward,
            KeyView::Entry(_) => kv.map[k].0 is Placed,
            KeyView::Children(_) => kv.map[k].0 is Children,
            KeyView::Plain(_) => true,
        }
}

/// The names in a directory.
pub open spec fn names_of(kv: Kv, ino: i64) -> Set<Seq<char>> {
    match kv.get(KeyView::Children(ino)) {
        Some(Meaning::Children { names, .. }) => names,
        _ => Set::empty(),
    }
}

/// The service after a change of the names in a directory.
pub open spec fn names_changed(kv: Kv, ino: i64, change: Change) -> Kv {
    kv.put(
        KeyView::Children(ino),
        Meaning::Children { inode: ino, names: change.applied(names_of(kv, ino)) },
    )
}

/// A transaction of one write is that write.
pub proof fn lemma_single_commit(kv: Kv, k: KeyView, m: Meaning)
    ensures
        kv.commit(seq![WriteView::Put(k, m)]) == kv.put(k, m),
{
    let ws = seq![WriteView::Put(k, m)];
    assert(ws.drop_last() =~= Seq::empty());
    assert(Kv::all_written(kv.map, ws.drop_last(), kv.revision + 1) == kv.map);
}

/// Names that nobody wrote since they were read are written with the change
/// applied to what they are.
pub proof fn law_update_applies_to_current_names(
    kv: Kv,
    kv2: Kv,
    op: UpdateShape,
    retry: int,
    names: Set<Seq<char>>,
    revision: i64,
    reply: Reply,
)
    requires
        well_kept(kv),
        names == names_of(kv, op.parent),
        revision == (if kv.map.dom().contains(KeyView::Children(op.parent)) {
            kv.map[KeyView::Children(op.parent)].1
        } else {
            0
        }),
        answers(
            kv,
            UpdateChildren::asks(UpdateState::Write { op, retry, names, revision }),
            reply,
            kv2,
        ),
    ensures
        UpdateChildren::after(UpdateState::Write { op, retry, names, revision }, reply)
            == StepView::<UpdateState, ()>::Done(Ok(())),
        kv2 == names_changed(kv, op.parent, op.change),
{
    let s = UpdateState::Write { op, retry, names, revision };
    let k = KeyView::Children(op.parent);
    let m = Meaning::Children { inode: op.parent, names: op.change.applied(names) };
    lemma_single_commit(kv, k, m);
    let cs = UpdateChildren::asks(s)->checks;
    assert(cs[0] == op.condition(revision));
    assert(kv.holds(cs[0]));
    assert(kv.all_hold(cs));
}

/// Names that somebody wrote since they were read are left as they are; the
/// update reads them again, or gives up after its last try.
pub proof fn law_stale_update_changes_nothing(
    kv: Kv,
    kv2: Kv,
    op: UpdateShape,
    retry: int,
    names: Set<Seq<char>>,
    revision: i64,
    reply: Reply,
)
    requires
        kv.map.dom().contains(KeyView::Children(op.parent)),
        kv.map[KeyView::Children(op.parent)].1 != revision,
        answers(
            kv,
            UpdateChildren::asks(UpdateState::Write { op, retry, names, revision }),
            reply,
            kv2,
        ),
    ensures
        kv2 == kv,
        UpdateChildren::after(UpdateState::Write { op, retry, names, revision }, reply) == (
        if retry + 1 < op.max_retries {
            StepView::<UpdateState, ()>::Next(UpdateState::Read { op, retry: retry + 1 })
        } else {
            StepView::<UpdateState, ()>::Done(Err(op.exhausted()))
        }),
{
    let cs = UpdateChildren::asks(UpdateState::Write { op, retry, names, revision })->checks;
    assert(cs[0] == op.condition(revision));
    assert(!kv.holds(cs[0]));
}

/// An update that nobody disturbs applies its change to the names that the directory has, at the
/// first try.
pub proof fn law_update_runs(
    kv: Kv,
    op: UpdateShape,
    retry: int,
    trace: Seq<(Reply, Kv)>,
    end: (Kv, Result<(), ErrorView>),
)
    requires
        well_kept(kv),
        runs::<UpdateChildren>(UpdateState::Read { op, retry }, kv, trace, end),
    ensures
        end == (names_changed(kv, op.parent, op.change), Ok::<(), ErrorView>(())),
{
    reveal_with_fuel(runs, 3);
    let k = KeyView::Children(op.parent);
    assert(kv.map.dom().contains(k) ==> kv.map[k].0 is Children && 0 < kv.map[k].1);
    match UpdateChildren::after(UpdateState::Read { op, retry }, trace[0].0) {
        StepView::Next(UpdateState::Write { op, retry, names, revision }) => {
            law_update_applies_to_current_names(
                kv,
                trace[1].1,
                op,
                retry,
                names,
                revision,
                trace[1].0,
            );
        },
        _ => {},
    }
}

/// Names that are read are those of the directory, and are unchanged when they were just read.
pub proof fn lemma_names_told(kv: Kv, ino: i64, reply: Reply, kv2: Kv)
    requires
        well_kept(kv),
        answers(kv, RequestView::Get(KeyView::Children(ino), Shape::Children), reply, kv2),
    ensures
        names_told(reply) matches Some(seen) && seen.names == names_of(kv, ino) && kv.holds(
            as_read(KeyView::Children(ino), seen.revision),
        ),
{
    let k = KeyView::Children(ino);
    assert(kv.map.dom().contains(k) ==> kv.map[k].0 is Children);
}

/// A directory that can be a parent.
pub open spec fn is_parent(kv: Kv, ino: i64) -> bool {
    ino == 1 || (kv.get(KeyView::Entry(ino)) matches Some(Meaning::Placed { info, .. })
        && !info.is_file)
}

/// The first state of a creation.
pub open spec fn creation(parent: i64, name: String, is_file: bool, now: i64) -> CreateNodeState {
    CreateNodeState {
        parent,
        name,
        is_file,
        now,
        retry: 0,
        phase: if parent == 1 {
            CreateNodeStage::Id
        } else {
            CreateNodeStage::Parent
        },
    }
}

/// The service with a new node: its name, its metadata, no names in it if it is a directory, and
/// the name among those of the parent, all written at one revision.
pub open spec fn node_made(kv: Kv, s: CreateNodeState, ino: i64) -> Kv {
    let rev = kv.revision + 1;
    let both = kv.map.insert(
        s.key(),
        (
            Meaning::Forward {
                parent: s.parent,
                name: s.name@,
                inode: ino,
                is_file: s.is_file,
            },
            rev,
        ),
    ).insert(
        KeyView::Entry(ino),
        (
            Meaning::Placed {
                info: fresh_info(s.is_file, s.now),
                parent: s.parent,
                name: s.name@,
            },
            rev,
        ),
    );
    let own = if s.is_file {
        both
    } else {
        both.insert(
            KeyView::Children(ino),
            (Meaning::Children { inode: ino, names: Set::empty() }, rev),
        )
    };
    Kv {
        map: own.insert(
            KeyView::Children(s.parent),
            (
                Meaning::Children {
                    inode: s.parent,
                    names: names_of(kv, s.parent).insert(s.name@),
                },
                rev,
            ),
        ),
        revision: rev,
    }
}

/// What a creation under the number `ino` makes of the service, and its result.
pub open spec fn create_node_end(
    kv: Kv,
    parent: i64,
    name: String,
    is_file: bool,
    now: i64,
    ino: i64,
) -> (Kv, Result<i64, ErrorView>) {
    if !is_parent(kv, parent) {
        (kv, Err(ErrorView::ParentNotFound(parent)))
    } else if kv.get(KeyView::Forward(parent, name@)) is Some {
        (kv, Err(ErrorView::AlreadyExists { parent, name: name@ }))
    } else {
        (node_made(kv, creation(parent, name, is_file, now), ino), Ok(ino))
    }
}

/// The number that a creation was given.
pub open spec fn given_number(parent: i64, trace: Seq<(Reply, Kv)>) -> i64 {
    let at: int = if parent == 1 {
        0
    } else {
        1
    };
    match trace[at].0 {
        Reply::Id(ino) => ino,
        _ => 0,
    }
}

/// The transaction of a creation makes the node.
pub proof fn lemma_creation_writes(kv: Kv, s: CreateNodeState, ino: i64)
    ensures
        kv.commit(s.writes(ino, names_of(kv, s.parent))) == node_made(kv, s, ino),
{
    let rev = kv.revision + 1;
    let ws = s.writes(ino, names_of(kv, s.parent));
    let none = Seq::<WriteView>::empty();
    lemma_written_push(kv.map, none, ws[0], rev);
    lemma_written_push(kv.map, none.push(ws[0]), ws[1], rev);
    let two = none.push(ws[0]).push(ws[1]);
    lemma_written_push(kv.map, two, ws[2], rev);
    if !s.is_file {
        lemma_written_push(kv.map, two.push(ws[2]), ws[3], rev);
    }
}

/// A creation that nobody disturbs does what `create_node_end` says.
pub proof fn law_create_node_runs(
    kv: Kv,
    parent: i64,
    name: String,
    is_file: bool,
    now: i64,
    trace: Seq<(Reply, Kv)>,
    end: (Kv, Result<i64, ErrorView>),
)
    requires
        well_kept(kv),
        runs::<CreateNode>(creation(parent, name, is_file, now), kv, trace, end),
    ensures
        end == create_node_end(kv, parent, name, is_file, now, given_number(parent, trace)),
{
    reveal_with_fuel(runs, 6);
    let s = creation(parent, name, is_file, now);
    let k = KeyView::Entry(parent);
    assert(kv.map.dom().contains(k) ==> kv.map[k].0 is Placed);
    let at: int = if parent == 1 {
        0
    } else {
        1
    };
    if is_parent(kv, parent) {
        let ino = given_number(parent, trace);
        assert(trace[at].1 == kv);
        lemma_names_told(kv, parent, trace[at + 1].0, trace[at + 1].1);
        let seen = names_told(trace[at + 1].0)->Some_0;
        let cs = s.checks(seen);
        assert(cs[0] == CheckView::Absent(s.key()));
        assert(kv.holds(cs[1]));
        assert(kv.all_hold(cs) <==> kv.holds(cs[0]));
        lemma_creation_writes(kv, s, ino);
        let s2 = s.at(CreateNodeStage::Commit(ino, seen));
        assert(s2.checks(seen) == cs);
        assert(s2.writes(ino, seen.names) == s.writes(ino, seen.names));
    }
}

/// The first state of a removal.
pub open spec fn removal(parent: i64, name: String, directory: bool) -> RemoveNodeState {
    RemoveNodeState { parent, name, directory, retry: 0, phase: RemoveNodeStage::Source }
}

/// The service without a node: neither its name nor its metadata nor, if it is a directory, names
/// in it, and the name not among those of the parent, all at one revision.
pub open spec fn node_removed(kv: Kv, s: RemoveNodeState, ino: i64) -> Kv {
    let rev = kv.revision + 1;
    let both = kv.map.remove(s.key()).remove(KeyView::Entry(ino));
    let own = if s.directory {
        both.remove(KeyView::Children(ino))
    } else {
        both
    };
    Kv {
        map: own.insert(
            KeyView::Children(s.parent),
            (
                Meaning::Children {
                    inode: s.parent,
                    names: names_of(kv, s.parent).remove(s.name@),
                },
                rev,
            ),
        ),
        revision: rev,
    }
}

/// What a removal makes of the service, and its result.
pub open spec fn remove_node_end(kv: Kv, parent: i64, name: String, directory: bool) -> (
    Kv,
    Result<(), ErrorView>,
) {
    match kv.get(KeyView::Forward(parent, name@)) {
        Some(Meaning::Forward { inode, is_file, .. }) => if directory && is_file {
            (kv, Err(ErrorView::Internal("Not a directory"@)))
        } else if !directory && !is_file {
            (kv, Err(ErrorView::Internal("Is a directory"@)))
        } else if directory && names_of(kv, inode) != Set::<Seq<char>>::empty() {
            (kv, Err(ErrorView::DirectoryNotEmpty(inode)))
        } else {
            (node_removed(kv, removal(parent, name, directory), inode), Ok(()))
        },
        _ => (kv, Err(ErrorView::NotFound(parent))),
    }
}

/// The transaction of a removal removes the node.
pub proof fn lemma_removal_writes(kv: Kv, s: RemoveNodeState, ino: i64)
    ensures
        kv.commit(s.writes(ino, names_of(kv, s.parent))) == node_removed(kv, s, ino),
{
    let rev = kv.revision + 1;
    let ws = s.writes(ino, names_of(kv, s.parent));
    let none = Seq::<WriteView>::empty();
    lemma_written_push(kv.map, none, ws[0], rev);
    lemma_written_push(kv.map, none.push(ws[0]), ws[1], rev);
    let two = none.push(ws[0]).push(ws[1]);
    lemma_written_push(kv.map, two, ws[2], rev);
    if s.directory {
        lemma_written_push(kv.map, two.push(ws[2]), ws[3], rev);
    }
}

/// A list without names stands for the empty set, and no other does.
pub proof fn lemma_no_names(names: Seq<String>)
    ensures
        name_set(names) == Set::<Seq<char>>::empty() <==> names.len() == 0,
{
    if names.len() == 0 {
        assert(name_set(names) =~= Set::empty());
    } else {
        assert(name_set(names).contains(names[0]@));
    }
}

/// A removal that nobody disturbs does what `remove_node_end` says.
#[verifier::rlimit(40)]
pub proof fn law_remove_node_runs(
    kv: Kv,
    parent: i64,
    name: String,
    directory: bool,
    trace: Seq<(Reply, Kv)>,
    end: (Kv, Result<(), ErrorView>),
)
    requires
        well_kept(kv),
        runs::<RemoveNode>(removal(parent, name, directory), kv, trace, end),
    ensures
        end == remove_node_end(kv, parent, name, directory),
{
    reveal_with_fuel(runs, 5);
    let s = removal(parent, name, directory);
    let fwd = s.key();
    assert(kv.map.dom().contains(fwd) ==> kv.map[fwd].0 is Forward);
    match kv.get(fwd) {
        Some(Meaning::Forward { inode, is_file, .. }) => {
            if directory != is_file {
                let found = Found {
                    ino: inode,
                    revision: trace[0].0->Value_0->Some_0.1,
                };
                let own = KeyView::Children(inode);
                assert(kv.map.dom().contains(own) ==> kv.map[own].0 is Children);
                if directory {
                    match trace[1].0 {
                        Reply::Value(Some((Value::Children(c), _))) => lemma_no_names(c.children@),
                        _ => {},
                    }
                }
                if !directory || names_of(kv, inode) == Set::<Seq<char>>::empty() {
                    let at: int = if directory {
                        2
                    } else {
                        1
                    };
                    lemma_names_told(kv, parent, trace[at].0, trace[at].1);
                    let seen = names_told(trace[at].0)->Some_0;
                    let own_revision = if directory {
                        match trace[1].0 {
                            Reply::Value(Some((_, revision))) => Some(revision),
                            _ => None,
                        }
                    } else {
                        None
                    };
                    let s2 = s.at(RemoveNodeStage::Commit(found, own_revision, seen));
                    let cs = s2.checks(found, own_revision, seen);
                    assert(kv.holds(cs[0]));
                    assert(kv.holds(cs[1]));
                    if directory {
                        assert(kv.holds(cs[2]));
                    }
                    assert(kv.all_hold(cs));
                    lemma_removal_writes(kv, s, inode);
                    assert(s2.writes(inode, seen.names) == s.writes(inode, seen.names));
                }
            }
        },
        _ => {},
    }
}

/// The first state of a move.
pub open spec fn a_move(
    old_parent: i64,
    old_name: String,
    new_parent: i64,
    new_name: String,
    now: i64,
) -> RenameNodeState {
    RenameNodeState {
        old_parent,
        old_name,
        new_parent,
        new_name,
        now,
        retry: 0,
        phase: RenameNodeStage::Source,
    }
}

/// The service with a node moved: the new name instead of the old one, the new place in the
/// metadata and the names of both directories, all at one revision.
pub open spec fn node_moved(
    kv: Kv,
    s: RenameNodeState,
    ino: i64,
    is_file: bool,
    info: EtcdEntryInfo,
) -> Kv {
    let rev = kv.revision + 1;
    let placed = kv.map.insert(
        s.new_key(),
        (
            Meaning::Forward { parent: s.new_parent, name: s.new_name@, inode: ino, is_file },
            rev,
        ),
    ).remove(s.old_key()).insert(
        KeyView::Entry(ino),
        (
            Meaning::Placed {
                info: EtcdEntryInfo { modify_time: s.now, ..info },
                parent: s.new_parent,
                name: s.new_name@,
            },
            rev,
        ),
    );
    let left = names_of(kv, s.old_parent).remove(s.old_name@);
    let named = |names: Set<Seq<char>>, ino: i64| (Meaning::Children { inode: ino, names }, rev);
    Kv {
        map: if s.old_parent != s.new_parent {
            placed.insert(KeyView::Children(s.old_parent), named(left, s.old_parent)).insert(
                KeyView::Children(s.new_parent),
                named(names_of(kv, s.new_parent).insert(s.new_name@), s.new_parent),
            )
        } else {
            placed.insert(
                KeyView::Children(s.old_parent),
                named(left.insert(s.new_name@), s.old_parent),
            )
        },
        revision: rev,
    }
}

/// What a move makes of the service, and its result.
pub open spec fn rename_node_end(
    kv: Kv,
    old_parent: i64,
    old_name: String,
    new_parent: i64,
    new_name: String,
    now: i64,
) -> (Kv, Result<(), ErrorView>) {
    let new_key = KeyView::Forward(new_parent, new_name@);
    match kv.get(KeyView::Forward(old_parent, old_name@)) {
        Some(Meaning::Forward { inode, is_file, .. }) => match kv.get(KeyView::Entry(inode)) {
            Some(Meaning::Placed { info, .. }) => if kv.get(new_key) is Some {
                (kv, Err(ErrorView::AlreadyExists { parent: 0, name: new_key.text() }))
            } else {
                let s = a_move(old_parent, old_name, new_parent, new_name, now);
                (node_moved(kv, s, inode, is_file, info), Ok(()))
            },
            _ => (kv, Err(ErrorView::NotFound(inode))),
        },
        _ => (kv, Err(ErrorView::NotFound(old_parent))),
    }
}

/// The names that a move reads of the new parent.
pub open spec fn new_names(kv: Kv, s: RenameNodeState) -> Option<Set<Seq<char>>> {
    if s.old_parent != s.new_parent {
        Some(names_of(kv, s.new_parent))
    } else {
        None
    }
}

/// The transaction of a move moves the node.
pub proof fn lemma_move_writes(
    kv: Kv,
    s: RenameNodeState,
    ino: i64,
    is_file: bool,
    info: EtcdEntryInfo,
)
    ensures
        kv.commit(
            s.writes(ino, is_file, info, names_of(kv, s.old_parent), new_names(kv, s)),
        ) == node_moved(kv, s, ino, is_file, info),
{
    let rev = kv.revision + 1;
    let ws = s.writes(ino, is_file, info, names_of(kv, s.old_parent), new_names(kv, s));
    let none = Seq::<WriteView>::empty();
    lemma_written_push(kv.map, none, ws[0], rev);
    lemma_written_push(kv.map, none.push(ws[0]), ws[1], rev);
    let two = none.push(ws[0]).push(ws[1]);
    lemma_written_push(kv.map, two, ws[2], rev);
    lemma_written_push(kv.map, two.push(ws[2]), ws[3], rev);
    if s.old_parent != s.new_parent {
        lemma_written_push(kv.map, two.push(ws[2]).push(ws[3]), ws[4], rev);
    }
}

/// A move that nobody disturbs does what `rename_node_end` says.
#[verifier::rlimit(60)]
pub proof fn law_rename_node_runs(
    kv: Kv,
    old_parent: i64,
    old_name: String,
    new_parent: i64,
    new_name: String,
    now: i64,
    trace: Seq<(Reply, Kv)>,
    end: (Kv, Result<(), ErrorView>),
)
    requires
        well_kept(kv),
        runs::<RenameNode>(
            a_move(old_parent, old_name, new_parent, new_name, now),
            kv,
            trace,
            end,
        ),
    ensures
        end == rename_node_end(kv, old_parent, old_name, new_parent, new_name, now),
{
    reveal_with_fuel(runs, 8);
    let s = a_move(old_parent, old_name, new_parent, new_name, now);
    let old_key = s.old_key();
    let new_key = s.new_key();
    assert(kv.map.dom().contains(old_key) ==> kv.map[old_key].0 is Forward);
    match kv.get(old_key) {
        Some(Meaning::Forward { inode, is_file, .. }) => {
            let k = KeyView::Entry(inode);
            assert(kv.map.dom().contains(k) ==> kv.map[k].0 is Placed);
            match kv.get(k) {
                Some(Meaning::Placed { info, .. }) => {
                    let m = Moved {
                        ino: inode,
                        is_file,
                        revision: trace[0].0->Value_0->Some_0.1,
                        info,
                        info_revision: trace[1].0->Value_0->Some_0.1,
                    };
                    lemma_names_told(kv, old_parent, trace[2].0, trace[2].1);
                    let old = names_told(trace[2].0)->Some_0;
                    let new = if old_parent != new_parent {
                        names_told(trace[3].0)
                    } else {
                        None
                    };
                    if old_parent != new_parent {
                        lemma_names_told(kv, new_parent, trace[3].0, trace[3].1);
                    }
                    let s2 = s.at(RenameNodeStage::Commit(m, old, new));
                    let cs = s2.checks(m, old, new);
                    assert(kv.holds(cs[0]));
                    assert(cs[1] == CheckView::Absent(new_key));
                    assert(kv.holds(cs[2]));
                    assert(kv.holds(cs[3]));
                    if old_parent != new_parent {
                        assert(kv.holds(cs[4]));
                    }
                    assert(kv.all_hold(cs) <==> kv.holds(cs[1]));
                    lemma_move_writes(kv, s, inode, is_file, info);
                    assert(s2.writes(inode, is_file, info, old.names, only_names(new)) == s.writes(
                        inode,
                        is_file,
                        info,
                        names_of(kv, old_parent),
                        new_names(kv, s),
                    ));
                },
                _ => {},
            }
        },
        _ => {},
    }
}

/// Every name that stands for a node is among the names of its directory, and no other name is: no
/// node is left that a listing does not show.
pub open spec fn all_listed(kv: Kv) -> bool {
    forall|parent: i64, name: Seq<char>|
        #![trigger kv.map.dom().contains(KeyView::Forward(parent, name))]
        #![trigger names_of(kv, parent).contains(name)]
        kv.map.dom().contains(KeyView::Forward(parent, name)) <==> names_of(kv, parent).contains(
            name,
        )
}

/// A creation under a fresh number keeps every node listed.
pub proof fn law_creation_keeps_all_listed(
    kv: Kv,
    parent: i64,
    name: String,
    is_file: bool,
    now: i64,
    ino: i64,
)
    requires
        well_kept(kv),
        all_listed(kv),
        ino != parent,
        names_of(kv, ino) == Set::<Seq<char>>::empty(),
    ensures
        well_kept(create_node_end(kv, parent, name, is_file, now, ino).0),
        all_listed(create_node_end(kv, parent, name, is_file, now, ino).0),
{
    let kv2 = create_node_end(kv, parent, name, is_file, now, ino).0;
    assert forall|p: i64, n: Seq<char>|
        kv2.map.dom().contains(KeyView::Forward(p, n)) <==> #[trigger] names_of(kv2, p).contains(
            n,
        ) by {
        assert(kv.map.dom().contains(KeyView::Forward(p, n)) <==> names_of(kv, p).contains(n));
    }
}

/// A removal keeps every node listed.
pub proof fn law_removal_keeps_all_listed(kv: Kv, parent: i64, name: String, directory: bool)
    requires
        well_kept(kv),
        all_listed(kv),
    ensures
        well_kept(remove_node_end(kv, parent, name, directory).0),
        all_listed(remove_node_end(kv, parent, name, directory).0),
{
    let kv2 = remove_node_end(kv, parent, name, directory).0;
    assert forall|p: i64, n: Seq<char>|
        kv2.map.dom().contains(KeyView::Forward(p, n)) <==> #[trigger] names_of(kv2, p).contains(
            n,
        ) by {
        assert(kv.map.dom().contains(KeyView::Forward(p, n)) <==> names_of(kv, p).contains(n));
    }
}

/// A move keeps every node listed.
pub proof fn law_move_keeps_all_listed(
    kv: Kv,
    old_parent: i64,
    old_name: String,
    new_parent: i64,
    new_name: String,
    now: i64,
)
    requires
        well_kept(kv),
        all_listed(kv),
    ensures
        well_kept(rename_node_end(kv, old_parent, old_name, new_parent, new_name, now).0),
        all_listed(rename_node_end(kv, old_parent, old_name, new_parent, new_name, now).0),
{
    let kv2 = rename_node_end(kv, old_parent, old_name, new_parent, new_name, now).0;
    assert forall|p: i64, n: Seq<char>|
        kv2.map.dom().contains(KeyView::Forward(p, n)) <==> #[trigger] names_of(kv2, p).contains(
            n,
        ) by {
        assert(kv.map.dom().contains(KeyView::Forward(p, n)) <==> names_of(kv, p).contains(n));
    }
}

/// A name that is taken is not created again, and a creation that is refused
/// changes nothing; of two creations of one name the second is refused.
pub proof fn law_name_is_created_once(
    kv: Kv,
    parent: i64,
    name: String,
    is_file: bool,
    now: i64,
    ino: i64,
    again_file: bool,
    later: i64,
    other: i64,
)
    requires
        create_node_end(kv, parent, name, is_file, now, ino).1 is Ok,
        ino != parent,
    ensures
        ({
            let kv2 = create_node_end(kv, parent, name, is_file, now, ino).0;
            &&& kv2.get(KeyView::Forward(parent, name@)) == Some(
                Meaning::Forward { parent, name: name@, inode: ino, is_file },
            )
            &&& kv2.get(KeyView::Entry(ino)) == Some(
                Meaning::Placed { info: fresh_info(is_file, now), parent, name: name@ },
            )
            &&& names_of(kv2, parent) == names_of(kv, parent).insert(name@)
            &&& create_node_end(kv2, parent, name, again_file, later, other) == (
                kv2,
                Err::<i64, ErrorView>(ErrorView::AlreadyExists { parent, name: name@ }),
            )
        }),
{
}

/// A name that was removed stands for nothing, is not among the names of its
/// directory, and its inode has no metadata.
pub proof fn law_removed_node_is_gone(kv: Kv, parent: i64, name: String, directory: bool, ino: i64)
    requires
        remove_node_end(kv, parent, name, directory).1 is Ok,
        kv.get(KeyView::Forward(parent, name@)) matches Some(Meaning::Forward { inode, .. })
            && inode == ino,
    ensures
        ({
            let kv2 = remove_node_end(kv, parent, name, directory).0;
            &&& kv2.get(KeyView::Forward(parent, name@)) is None
            &&& kv2.get(KeyView::Entry(ino)) is None
            &&& !names_of(kv2, parent).contains(name@)
        }),
{
}

/// What a name stands for: the inode, and whether it is a file.
pub open spec fn target_of(kv: Kv, parent: i64, name: Seq<char>) -> Option<(i64, bool)> {
    match kv.get(KeyView::Forward(parent, name)) {
        Some(Meaning::Forward { inode, is_file, .. }) => Some((inode, is_file)),
        _ => None,
    }
}

/// The place that the metadata of an inode name.
pub open spec fn place_of(kv: Kv, ino: i64) -> Option<(i64, Seq<char>)> {
    match kv.get(KeyView::Entry(ino)) {
        Some(Meaning::Placed { parent, name, .. }) => Some((parent, name)),
        _ => None,
    }
}

/// A move onto a name that is taken is refused and changes nothing; any other
/// move leaves the old name free and gives the new one its inode, with the place
/// kept in the metadata.
pub proof fn law_rename_node_moves(
    kv: Kv,
    old_parent: i64,
    old_name: String,
    new_parent: i64,
    new_name: String,
    now: i64,
)
    ensures
        ({
            let end = rename_node_end(kv, old_parent, old_name, new_parent, new_name, now);
            let old_key = KeyView::Forward(old_parent, old_name@);
            let new_key = KeyView::Forward(new_parent, new_name@);
            &&& kv.get(new_key) is Some ==> end.1 is Err
            &&& end.1 is Err ==> end.0 == kv
            &&& end.1 is Ok ==> {
                &&& end.0.get(old_key) is None
                &&& target_of(kv, old_parent, old_name@) is Some
                &&& target_of(end.0, new_parent, new_name@) == target_of(
                    kv,
                    old_parent,
                    old_name@,
                )
                &&& place_of(end.0, target_of(kv, old_parent, old_name@)->Some_0.0) == Some(
                    (new_parent, new_name@),
                )
                &&& names_of(end.0, new_parent).contains(new_name@)
                &&& !names_of(end.0, old_parent).contains(old_name@)
            }
        }),
{
}

} // verus!
