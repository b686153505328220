//! What the transactional operations do while others write to the service, and where requests
//! fail.

use crate::meta::entities::EtcdEntryInfo;
use crate::meta::etcd::among_others::{kept, kept_until_last, lemma_rest};
use crate::meta::etcd::atomic_laws::{
    a_move, creation, lemma_creation_writes, lemma_move_writes, lemma_no_names,
    lemma_removal_writes, lemma_single_commit, names_changed, names_of, new_names, node_made,
    node_moved, node_removed, removal, well_kept,
};
use crate::meta::etcd::atomic_store::{
    names_told, only_names, CreateNode, CreateNodeStage, CreateNodeState, Found, Moved, NamesSeen,
    RemoveNode, RemoveNodeStage, RemoveNodeState, RenameNode, RenameNodeStage, RenameNodeState,
};
use crate::meta::etcd::cas::{Change, UpdateChildren, UpdateShape, UpdateState};
use crate::meta::etcd::kv::{
    answers, fails, revisions_tell, runs_among_others, told, CheckView, Event, KeyView, Meaning,
    Operation, Reply, RequestView, Shape, Value,
};
use crate::meta::etcd::store::as_read;
use crate::meta::store::{ErrorView, StepView};
use vstd::prelude::*;

verus! {

/// Whether the service is well kept whenever a request comes.
pub open spec fn always_kept(events: Seq<Event>) -> bool {
    forall|i: int| 0 <= i < events.len() ==> well_kept((#[trigger] events[i]).before)
}

/// Whether an event changes the names that the directory has at that moment.
pub open spec fn renames(ev: Event, ino: i64, change: Change) -> bool {
    ev.after == names_changed(ev.before, ino, change)
}

/// What an update is to do.
pub open spec fn task(u: UpdateState) -> UpdateShape {
    match u {
        UpdateState::Read { op, .. } => op,
        UpdateState::Write { op, .. } => op,
    }
}

/// What an update knows of the names.
spec fn update_knows(u: UpdateState, all: Seq<Event>) -> bool {
    u matches UpdateState::Write { op, names, revision, .. } ==> forall|i: int|
        0 <= i < all.len() && (#[trigger] all[i]).before.holds(op.condition(revision)) ==> names
            == names_of(all[i].before, op.parent)
}

/// A step of an update: it leaves the service as it is, or applies the change to the names that
/// the directory has at that moment.
proof fn lemma_update_step(u: UpdateState, all: Seq<Event>, at: int, lossy: bool)
    requires
        revisions_tell(all),
        always_kept(all),
        0 <= at < all.len(),
        update_knows(u, all),
        answers(all[at].before, UpdateChildren::asks(u), all[at].reply, all[at].after) || fails(
            all[at].before,
            UpdateChildren::asks(u),
            all[at].reply,
            all[at].after,
            lossy,
        ),
    ensures
        kept(all[at]) || renames(all[at], task(u).parent, task(u).change),
        match UpdateChildren::after(u, all[at].reply) {
            StepView::Next(u2) => kept(all[at]) && update_knows(u2, all) && task(u2) == task(u),
            StepView::Done(Ok(_)) => renames(all[at], task(u).parent, task(u).change),
            StepView::Done(Err(_)) => lossy || kept(all[at]),
        },
{
    let ev = all[at];
    let kv = ev.before;
    match u {
        UpdateState::Read { op, retry } => {
            let k = KeyView::Children(op.parent);
            assert(well_kept(all[at].before));
            if kv.map.dom().contains(k) {
                assert(0 < kv.map[k].1 && kv.map[k].0 is Children);
                assert(told(all, k, kv.map[k].0, kv.map[k].1));
            }
            match UpdateChildren::after(u, ev.reply) {
                StepView::Next(u2) => {
                    assert(update_knows(u2, all));
                },
                _ => {},
            }
        },
        UpdateState::Write { op, retry, names, revision } => {
            let k = KeyView::Children(op.parent);
            let m = Meaning::Children { inode: op.parent, names: op.change.applied(names) };
            lemma_single_commit(kv, k, m);
            let cs = UpdateChildren::asks(u)->checks;
            if kv.all_hold(cs) {
                assert(kv.holds(cs[0]));
                assert(names == names_of(all[at].before, op.parent));
            }
        },
    }
}

/// What is known of names that were read: wherever they are as they were read, the directory has
/// them.
spec fn names_known(all: Seq<Event>, ino: i64, seen: NamesSeen) -> bool {
    forall|i: int|
        0 <= i < all.len() && (#[trigger] all[i]).before.holds(
            as_read(KeyView::Children(ino), seen.revision),
        ) ==> names_of(all[i].before, ino) == seen.names
}

/// A read of names tells them.
proof fn lemma_names_known(all: Seq<Event>, at: int, ino: i64)
    requires
        revisions_tell(all),
        0 <= at < all.len(),
        answers(
            all[at].before,
            RequestView::Get(KeyView::Children(ino), Shape::Children),
            all[at].reply,
            all[at].after,
        ),
    ensures
        names_told(all[at].reply) matches Some(seen) && names_known(all, ino, seen),
{
    let kv = all[at].before;
    let k = KeyView::Children(ino);
    if kv.map.dom().contains(k) {
        assert(told(all, k, kv.map[k].0, kv.map[k].1));
    }
}

/// Whether an event makes a node under a name that is free at that moment, with all its keys and
/// its name in the parent.
pub open spec fn makes(ev: Event, s: CreateNodeState, ino: i64) -> bool {
    &&& !ev.before.map.dom().contains(s.key())
    &&& ev.after == node_made(ev.before, s, ino)
}

/// A creation from any state on.
proof fn lemma_create_among(
    first: CreateNodeState,
    s: CreateNodeState,
    all: Seq<Event>,
    at: int,
    end: Result<i64, ErrorView>,
    lossy: bool,
)
    requires
        revisions_tell(all),
        0 <= at <= all.len(),
        s == (CreateNodeState { retry: s.retry, phase: s.phase, ..first }),
        s.phase matches CreateNodeStage::Commit(_, seen) ==> names_known(all, s.parent, seen),
        runs_among_others::<CreateNode>(s, all.skip(at), end, lossy),
    ensures
        forall|i: int| at <= i < all.len() - 1 ==> kept(#[trigger] all[i]),
        match end {
            Ok(ino) => makes(all.last(), first, ino),
            Err(_) => kept(all.last()) || (lossy && exists|ino: i64| makes(all.last(), first, ino)),
        },
    decreases all.len() - at,
{
    lemma_rest(all, at);
    let ev = all[at];
    let kv = ev.before;
    if let CreateNodeStage::Names(_) = s.phase {
        if ev.reply is Value {
            lemma_names_known(all, at, s.parent);
        }
    }
    if let CreateNodeStage::Commit(ino, seen) = s.phase {
        let cs = s.checks(seen);
        if kv.all_hold(cs) {
            assert(kv.holds(cs[0]));
            assert(kv.holds(cs[1]));
            assert(seen.names == names_of(all[at].before, s.parent));
            lemma_creation_writes(kv, s, ino);
            assert(node_made(kv, s, ino) == node_made(kv, first, ino));
            assert(ev.after == node_made(kv, s, ino) ==> makes(all[at], first, ino));
        }
    }
    match CreateNode::after(s, ev.reply) {
        StepView::Next(s2) => {
            lemma_create_among(first, s2, all, at + 1, end, lossy);
        },
        StepView::Done(_) => {},
    }
}

/// A creation is made at one moment, whatever others do and whatever fails: the name is free at
/// that moment, and the node is written with all its keys and its name in the parent. One that
/// fails changes nothing, unless the reply to its last request is lost.
pub proof fn law_create_node_at_one_moment(
    parent: i64,
    name: String,
    is_file: bool,
    now: i64,
    events: Seq<Event>,
    end: Result<i64, ErrorView>,
    lossy: bool,
)
    requires
        revisions_tell(events),
        runs_among_others::<CreateNode>(creation(parent, name, is_file, now), events, end, lossy),
    ensures
        kept_until_last(events),
        ({
            let s = creation(parent, name, is_file, now);
            match end {
                Ok(ino) => makes(events.last(), s, ino),
                Err(_) => kept(events.last()) || (lossy && exists|ino: i64|
                    makes(events.last(), s, ino)),
            }
        }),
{
    assert(events.skip(0) =~= events);
    let s = creation(parent, name, is_file, now);
    lemma_create_among(s, s, events, 0, end, lossy);
}

/// A creation that fails where no reply is lost changes nothing with any request.
proof fn lemma_failed_create_node(
    s: CreateNodeState,
    events: Seq<Event>,
    end: Result<i64, ErrorView>,
)
    requires
        runs_among_others::<CreateNode>(s, events, end, false),
        end is Err,
    ensures
        forall|i: int| 0 <= i < events.len() ==> kept(#[trigger] events[i]),
    decreases events.len(),
{
    let rest = events.drop_first();
    if let StepView::Next(s2) = CreateNode::after(s, events[0].reply) {
        lemma_failed_create_node(s2, rest, end);
        assert forall|i: int| 0 <= i < events.len() implies kept(#[trigger] events[i]) by {
            if i > 0 {
                assert(kept(rest[i - 1]));
            }
        }
    }
}

/// A creation that fails, at whatever request, leaves no trace, whatever others do: no request of
/// it changes anything. So no node is left without a name.
pub proof fn law_failed_create_node_leaves_no_trace(
    parent: i64,
    name: String,
    is_file: bool,
    now: i64,
    events: Seq<Event>,
    end: Result<i64, ErrorView>,
)
    requires
        runs_among_others::<CreateNode>(creation(parent, name, is_file, now), events, end, false),
        end is Err,
    ensures
        forall|i: int| 0 <= i < events.len() ==> kept(#[trigger] events[i]),
{
    lemma_failed_create_node(creation(parent, name, is_file, now), events, end);
}

/// Whether an event removes the node that a name stands for at that moment; a directory is empty
/// then.
pub open spec fn removes(ev: Event, s: RemoveNodeState, ino: i64) -> bool {
    &&& ev.before.get(s.key()) matches Some(Meaning::Forward { inode, is_file, .. }) && inode == ino
        && is_file == !s.directory
    &&& s.directory ==> names_of(ev.before, ino) == Set::<Seq<char>>::empty()
    &&& ev.after == node_removed(ev.before, s, ino)
}

/// What is known of a name that a removal found.
spec fn found_known(all: Seq<Event>, s: RemoveNodeState, found: Found) -> bool {
    forall|i: int|
        0 <= i < all.len() && (#[trigger] all[i]).before.holds(
            CheckView::Unchanged(s.key(), found.revision),
        ) ==> (all[i].before.get(s.key()) matches Some(Meaning::Forward { inode, is_file, .. })
            && inode == found.ino && is_file == !s.directory)
}

/// What is known of a directory without names.
spec fn empty_known(all: Seq<Event>, s: RemoveNodeState, found: Found, own: Option<i64>) -> bool {
    s.directory ==> names_known(all, found.ino, NamesSeen { names: Set::empty(), revision: own })
}

/// What a removal knows.
spec fn removal_knows(s: RemoveNodeState, all: Seq<Event>) -> bool {
    match s.phase {
        RemoveNodeStage::Source => true,
        RemoveNodeStage::OwnNames(found) => found_known(all, s, found) && s.directory,
        RemoveNodeStage::Names(found, own) => found_known(all, s, found) && empty_known(
            all,
            s,
            found,
            own,
        ),
        RemoveNodeStage::Commit(found, own, seen) => found_known(all, s, found) && empty_known(
            all,
            s,
            found,
            own,
        ) && names_known(all, s.parent, seen),
    }
}

/// A removal from any state on.
proof fn lemma_remove_among(
    first: RemoveNodeState,
    s: RemoveNodeState,
    all: Seq<Event>,
    at: int,
    end: Result<(), ErrorView>,
    lossy: bool,
)
    requires
        revisions_tell(all),
        0 <= at <= all.len(),
        s == (RemoveNodeState { retry: s.retry, phase: s.phase, ..first }),
        removal_knows(s, all),
        runs_among_others::<RemoveNode>(s, all.skip(at), end, lossy),
    ensures
        forall|i: int| at <= i < all.len() - 1 ==> kept(#[trigger] all[i]),
        end is Ok ==> exists|ino: i64| removes(all.last(), first, ino),
        end is Err ==> kept(all.last()) || (lossy && exists|ino: i64|
            removes(all.last(), first, ino)),
    decreases all.len() - at,
{
    lemma_rest(all, at);
    let ev = all[at];
    let kv = ev.before;
    match s.phase {
        RemoveNodeStage::Source => {
            if let Reply::Value(Some((Value::Forward(e), revision))) = ev.reply {
                assert(told(all, s.key(), kv.map[s.key()].0, kv.map[s.key()].1));
                if e.is_file == !s.directory {
                    assert(found_known(all, s, Found { ino: e.inode, revision }));
                }
            }
        },
        RemoveNodeStage::OwnNames(found) => {
            if ev.reply is Value {
                lemma_names_known(all, at, found.ino);
                if let Reply::Value(Some((Value::Children(c), _))) = ev.reply {
                    lemma_no_names(c.children@);
                }
            }
        },
        RemoveNodeStage::Names(_, _) => {
            if ev.reply is Value {
                lemma_names_known(all, at, s.parent);
            }
        },
        RemoveNodeStage::Commit(found, own, seen) => {
            let cs = s.checks(found, own, seen);
            if kv.all_hold(cs) {
                assert(kv.holds(cs[0]));
                assert(kv.holds(cs[1]));
                if s.directory {
                    assert(kv.holds(cs[2]));
                }
                assert(seen.names == names_of(all[at].before, s.parent));
                lemma_removal_writes(kv, s, found.ino);
                assert(node_removed(kv, s, found.ino) == node_removed(kv, first, found.ino));
                assert(ev.after == node_removed(kv, s, found.ino) ==> removes(
                    all[at],
                    first,
                    found.ino,
                ));
            }
        },
    }
    match RemoveNode::after(s, ev.reply) {
        StepView::Next(s2) => {
            assert(removal_knows(s2, all));
            lemma_remove_among(first, s2, all, at + 1, end, lossy);
        },
        StepView::Done(_) => {},
    }
}

/// A removal is made at one moment, whatever others do and whatever fails: the name stands for the
/// node at that moment, a directory is empty then, and all keys go together with the name in the
/// parent. One that fails changes nothing, unless the reply to its last request is lost.
pub proof fn law_remove_node_at_one_moment(
    parent: i64,
    name: String,
    directory: bool,
    events: Seq<Event>,
    end: Result<(), ErrorView>,
    lossy: bool,
)
    requires
        revisions_tell(events),
        runs_among_others::<RemoveNode>(removal(parent, name, directory), events, end, lossy),
    ensures
        kept_until_last(events),
        ({
            let s = removal(parent, name, directory);
            &&& end is Ok ==> exists|ino: i64| removes(events.last(), s, ino)
            &&& end is Err ==> kept(events.last()) || (lossy && exists|ino: i64|
                removes(events.last(), s, ino))
        }),
{
    assert(events.skip(0) =~= events);
    let s = removal(parent, name, directory);
    lemma_remove_among(s, s, events, 0, end, lossy);
}

/// A removal that fails where no reply is lost changes nothing with any request.
proof fn lemma_failed_remove_node(
    s: RemoveNodeState,
    events: Seq<Event>,
    end: Result<(), ErrorView>,
)
    requires
        runs_among_others::<RemoveNode>(s, events, end, false),
        end is Err,
    ensures
        forall|i: int| 0 <= i < events.len() ==> kept(#[trigger] events[i]),
    decreases events.len(),
{
    let rest = events.drop_first();
    if let StepView::Next(s2) = RemoveNode::after(s, events[0].reply) {
        lemma_failed_remove_node(s2, rest, end);
        assert forall|i: int| 0 <= i < events.len() implies kept(#[trigger] events[i]) by {
            if i > 0 {
                assert(kept(rest[i - 1]));
            }
        }
    }
}

/// A removal that fails, at whatever request, leaves no trace, whatever others do.
pub proof fn law_failed_remove_node_leaves_no_trace(
    parent: i64,
    name: String,
    directory: bool,
    events: Seq<Event>,
    end: Result<(), ErrorView>,
)
    requires
        runs_among_others::<RemoveNode>(removal(parent, name, directory), events, end, false),
        end is Err,
    ensures
        forall|i: int| 0 <= i < events.len() ==> kept(#[trigger] events[i]),
{
    lemma_failed_remove_node(removal(parent, name, directory), events, end);
}

/// What a move takes from one name to the other.
pub struct Cargo {
    pub ino: i64,
    pub is_file: bool,
    pub info: EtcdEntryInfo,
}

/// Whether an event moves the node that the old name stands for at that moment to the new name,
/// which is free then.
pub open spec fn moves(ev: Event, s: RenameNodeState, c: Cargo) -> bool {
    &&& ev.before.get(s.old_key()) matches Some(Meaning::Forward { inode, is_file, .. }) && inode
        == c.ino && is_file == c.is_file
    &&& ev.before.get(s.new_key()) is None
    &&& ev.before.get(KeyView::Entry(c.ino)) matches Some(Meaning::Placed { info, .. }) && info
        == c.info
    &&& ev.after == node_moved(ev.before, s, c.ino, c.is_file, c.info)
}

/// What is known of the old name.
spec fn source_known(
    all: Seq<Event>,
    s: RenameNodeState,
    ino: i64,
    is_file: bool,
    revision: i64,
) -> bool {
    forall|i: int|
        0 <= i < all.len() && (#[trigger] all[i]).before.holds(
            CheckView::Unchanged(s.old_key(), revision),
        ) ==> (all[i].before.get(s.old_key()) matches Some(
            Meaning::Forward { inode, is_file: f, .. },
        ) && inode == ino && f == is_file)
}

/// What is known of what is moved.
spec fn moved_known(all: Seq<Event>, s: RenameNodeState, m: Moved) -> bool {
    &&& source_known(all, s, m.ino, m.is_file, m.revision)
    &&& forall|i: int|
        0 <= i < all.len() && (#[trigger] all[i]).before.holds(
            CheckView::Unchanged(KeyView::Entry(m.ino), m.info_revision),
        ) ==> (all[i].before.get(KeyView::Entry(m.ino)) matches Some(Meaning::Placed { info, .. })
            && info == m.info)
}

/// What a move knows.
spec fn move_knows(s: RenameNodeState, all: Seq<Event>) -> bool {
    match s.phase {
        RenameNodeStage::Info { ino, is_file, revision } => source_known(
            all,
            s,
            ino,
            is_file,
            revision,
        ),
        RenameNodeStage::OldNames(m) => moved_known(all, s, m),
        RenameNodeStage::NewNames(m, old) => moved_known(all, s, m) && names_known(
            all,
            s.old_parent,
            old,
        ) && s.old_parent != s.new_parent,
        RenameNodeStage::Commit(m, old, new) => moved_known(all, s, m) && names_known(
            all,
            s.old_parent,
            old,
        ) && (match new {
            Some(seen) => s.old_parent != s.new_parent && names_known(all, s.new_parent, seen),
            None => s.old_parent == s.new_parent,
        }),
        _ => true,
    }
}

/// A move from any state on.
proof fn lemma_move_among(
    first: RenameNodeState,
    s: RenameNodeState,
    all: Seq<Event>,
    at: int,
    end: Result<(), ErrorView>,
    lossy: bool,
)
    requires
        revisions_tell(all),
        0 <= at <= all.len(),
        s == (RenameNodeState { retry: s.retry, phase: s.phase, ..first }),
        move_knows(s, all),
        runs_among_others::<RenameNode>(s, all.skip(at), end, lossy),
    ensures
        forall|i: int| at <= i < all.len() - 1 ==> kept(#[trigger] all[i]),
        end is Ok ==> exists|c: Cargo| moves(all.last(), first, c),
        end is Err ==> kept(all.last()) || (lossy && exists|c: Cargo|
            moves(all.last(), first, c)),
    decreases all.len() - at,
{
    lemma_rest(all, at);
    let ev = all[at];
    let kv = ev.before;
    match s.phase {
        RenameNodeStage::Source => {
            if let Reply::Value(Some((Value::Forward(e), revision))) = ev.reply {
                let k = s.old_key();
                assert(told(all, k, kv.map[k].0, kv.map[k].1));
                assert(source_known(all, s, e.inode, e.is_file, revision));
            }
        },
        RenameNodeStage::Info { ino, .. } => {
            if ev.reply is Value {
                let k = KeyView::Entry(ino);
                if kv.map.dom().contains(k) {
                    assert(told(all, k, kv.map[k].0, kv.map[k].1));
                }
            }
        },
        RenameNodeStage::OldNames(_) => {
            if ev.reply is Value {
                lemma_names_known(all, at, s.old_parent);
            }
        },
        RenameNodeStage::NewNames(_, _) => {
            if ev.reply is Value {
                lemma_names_known(all, at, s.new_parent);
            }
        },
        RenameNodeStage::Commit(m, old, new) => {
            let cs = s.checks(m, old, new);
            if kv.all_hold(cs) {
                assert(kv.holds(cs[0]) && kv.holds(cs[1]) && kv.holds(cs[2]) && kv.holds(cs[3]));
                if s.old_parent != s.new_parent {
                    assert(kv.holds(cs[4]));
                }
                assert(old.names == names_of(all[at].before, s.old_parent));
                assert(only_names(new) == new_names(all[at].before, s));
                lemma_move_writes(kv, s, m.ino, m.is_file, m.info);
                let c = Cargo { ino: m.ino, is_file: m.is_file, info: m.info };
                assert(node_moved(kv, s, m.ino, m.is_file, m.info) == node_moved(
                    kv,
                    first,
                    m.ino,
                    m.is_file,
                    m.info,
                ));
                assert(ev.after == node_moved(kv, s, m.ino, m.is_file, m.info) ==> moves(
                    all[at],
                    first,
                    c,
                ));
            }
        },
        _ => {},
    }
    match RenameNode::after(s, ev.reply) {
        StepView::Next(s2) => {
            assert(move_knows(s2, all));
            lemma_move_among(first, s2, all, at + 1, end, lossy);
        },
        StepView::Done(_) => {},
    }
}

/// A move is made at one moment, whatever others do and whatever fails: the old name stands for
/// the node and the new one is free at that moment. One that fails changes nothing, unless the
/// reply to its last request is lost.
pub proof fn law_rename_node_at_one_moment(
    old_parent: i64,
    old_name: String,
    new_parent: i64,
    new_name: String,
    now: i64,
    events: Seq<Event>,
    end: Result<(), ErrorView>,
    lossy: bool,
)
    requires
        revisions_tell(events),
        runs_among_others::<RenameNode>(
            a_move(old_parent, old_name, new_parent, new_name, now),
            events,
            end,
            lossy,
        ),
    ensures
        kept_until_last(events),
        ({
            let s = a_move(old_parent, old_name, new_parent, new_name, now);
            &&& end is Ok ==> exists|c: Cargo| moves(events.last(), s, c)
            &&& end is Err ==> kept(events.last()) || (lossy && exists|c: Cargo|
                moves(events.last(), s, c))
        }),
{
    assert(events.skip(0) =~= events);
    let s = a_move(old_parent, old_name, new_parent, new_name, now);
    lemma_move_among(s, s, events, 0, end, lossy);
}

/// A move that fails where no reply is lost changes nothing with any request.
proof fn lemma_failed_rename_node(
    s: RenameNodeState,
    events: Seq<Event>,
    end: Result<(), ErrorView>,
)
    requires
        runs_among_others::<RenameNode>(s, events, end, false),
        end is Err,
    ensures
        forall|i: int| 0 <= i < events.len() ==> kept(#[trigger] events[i]),
    decreases events.len(),
{
    let rest = events.drop_first();
    if let StepView::Next(s2) = RenameNode::after(s, events[0].reply) {
        lemma_failed_rename_node(s2, rest, end);
        assert forall|i: int| 0 <= i < events.len() implies kept(#[trigger] events[i]) by {
            if i > 0 {
                assert(kept(rest[i - 1]));
            }
        }
    }
}

/// A move that fails, at whatever request, leaves no trace, whatever others do.
pub proof fn law_failed_rename_node_leaves_no_trace(
    old_parent: i64,
    old_name: String,
    new_parent: i64,
    new_name: String,
    now: i64,
    events: Seq<Event>,
    end: Result<(), ErrorView>,
)
    requires
        runs_among_others::<RenameNode>(
            a_move(old_parent, old_name, new_parent, new_name, now),
            events,
            end,
            false,
        ),
        end is Err,
    ensures
        forall|i: int| 0 <= i < events.len() ==> kept(#[trigger] events[i]),
{
    lemma_failed_rename_node(
        a_move(old_parent, old_name, new_parent, new_name, now),
        events,
        end,
    );
}

/// Whatever others do and whatever fails, every request of an update of names leaves the service
/// as it is, or applies the change to the names that the directory has at that moment. An update
/// that succeeds has applied it, with its last request.
pub proof fn law_update_among_others(
    u: UpdateState,
    events: Seq<Event>,
    end: Result<(), ErrorView>,
    lossy: bool,
)
    requires
        u is Read,
        revisions_tell(events),
        always_kept(events),
        runs_among_others::<UpdateChildren>(u, events, end, lossy),
    ensures
        forall|i: int| 0 <= i < events.len() - 1 ==> kept(#[trigger] events[i]),
        match end {
            Ok(_) => renames(events.last(), task(u).parent, task(u).change),
            Err(_) => kept(events.last()) || (lossy && renames(
                events.last(),
                task(u).parent,
                task(u).change,
            )),
        },
{
    assert(events.skip(0) =~= events);
    lemma_update_among(u, events, 0, end, lossy);
}

/// An update of names from any state on.
proof fn lemma_update_among(
    u: UpdateState,
    all: Seq<Event>,
    at: int,
    end: Result<(), ErrorView>,
    lossy: bool,
)
    requires
        revisions_tell(all),
        always_kept(all),
        0 <= at <= all.len(),
        update_knows(u, all),
        runs_among_others::<UpdateChildren>(u, all.skip(at), end, lossy),
    ensures
        forall|i: int| at <= i < all.len() - 1 ==> kept(#[trigger] all[i]),
        match end {
            Ok(_) => renames(all.last(), task(u).parent, task(u).change),
            Err(_) => kept(all.last()) || (lossy && renames(
                all.last(),
                task(u).parent,
                task(u).change,
            )),
        },
    decreases all.len() - at,
{
    lemma_rest(all, at);
    lemma_update_step(u, all, at, lossy);
    match UpdateChildren::after(u, all[at].reply) {
        StepView::Next(u2) => lemma_update_among(u2, all, at + 1, end, lossy),
        StepView::Done(_) => {},
    }
}

} // verus!
