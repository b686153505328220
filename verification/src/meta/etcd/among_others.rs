//! What the operations on the key-value service do while others write to it, and where requests
//! fail.
//!
//! The states between two requests of an operation are any states. Revisions tell values: a key
//! that was last written at the same revision holds the same.

use crate::meta::entities::{EntryType, EtcdForwardEntry};
use crate::meta::etcd::kv::{
    answers, children_meaning, forward_meaning, lemma_written_push, name_set, revisions_tell,
    runs_among_others, told, undisturbed, CheckView, Event, KeyView, Kv, Meaning, Operation, Reply,
    Value, WriteView,
};
use crate::meta::etcd::laws::{
    create_end, is_empty_dir, lemma_create_commit, lemma_rename_commit, lemma_rmdir_commit,
    lemma_unlink_commit, names_say, rename_end, rmdir_end, setattr_end, stands_for, unlink_end,
};
use crate::meta::etcd::plain_nodes::{
    lemma_plain_commit, plain_names, plain_written, PlainAt, PlainCreate, PlainState,
};
use crate::meta::etcd::store::{
    as_read, Create, CreatePhase, InitRoot, ReadNames, Rename, RenamePhase, Rmdir, RmdirPhase,
    Setattr, SetattrPhase, Siblings, Unlink, UnlinkPhase,
};
use crate::meta::store::{ErrorView, FileAttr, StepView};
use crate::meta::types::{CreateParams, Inode, SetAttrMask};
use vstd::prelude::*;

verus! {

/// Whether an event left the service as it was.
pub open spec fn kept(ev: Event) -> bool {
    ev.after == ev.before
}

/// Whether all events but the last left the service as it was.
pub open spec fn kept_until_last(events: Seq<Event>) -> bool {
    forall|i: int| 0 <= i < events.len() - 1 ==> kept(#[trigger] events[i])
}

/// What is known of names that were read.
spec fn names_told(all: Seq<Event>, ino: i64, names: Option<ReadNames>) -> bool {
    names matches Some((c, revision)) ==> told(
        all,
        KeyView::Children(ino),
        children_meaning(c),
        revision as int,
    )
}

/// What is known of the names of a parent that were read.
spec fn siblings_told(all: Seq<Event>, ino: i64, siblings: Siblings) -> bool {
    siblings matches Ok(names) ==> names_told(all, ino, Some(names))
}

/// What was read at an event is known from it on.
pub proof fn lemma_read(all: Seq<Event>, at: int, k: KeyView)
    requires
        revisions_tell(all),
        0 <= at < all.len(),
        all[at].before.map.dom().contains(k),
    ensures
        told(all, k, all[at].before.map[k].0, all[at].before.map[k].1),
{
}

/// The events after the first.
pub proof fn lemma_rest(all: Seq<Event>, at: int)
    requires
        0 <= at < all.len(),
    ensures
        all.skip(at)[0] == all[at],
        all.skip(at).drop_first() == all.skip(at + 1),
        all.skip(at).len() == all.len() - at,
{
    assert(all.skip(at).drop_first() =~= all.skip(at + 1));
}

/// Whether the last event of a creation does what its result says: all of the creation where it
/// succeeds, at that moment, and nothing where it fails. Where replies can be lost, a creation
/// that is told to fail may have been made in full.
pub open spec fn create_last(
    ev: Event,
    params: CreateParams,
    now: i64,
    end: Result<(Inode, FileAttr), ErrorView>,
    lossy: bool,
) -> bool {
    match end {
        Ok(made) => create_end(ev.before, params, now, made.0.0) == (
            ev.after,
            Ok::<(Inode, FileAttr), ErrorView>(made),
        ),
        Err(_) => kept(ev) || (lossy && exists|ino: i64|
            {
                let made = #[trigger] create_end(ev.before, params, now, ino);
                made.0 == ev.after && made.1 is Ok
            }),
    }
}

/// What a creation knows.
spec fn create_knows(s: Create, all: Seq<Event>) -> bool {
    let parent = s.params.parent.0;
    match s.phase {
        CreatePhase::Parent => true,
        CreatePhase::Name(siblings) => siblings_told(all, parent, siblings),
        CreatePhase::Id(siblings) => siblings_told(all, parent, siblings),
        CreatePhase::Commit(c, revision, _) => names_told(all, parent, Some((c, revision))),
    }
}

/// The transaction of a creation whose conditions hold is the whole creation.
proof fn lemma_create_held(
    kv: Kv,
    all: Seq<Event>,
    at: int,
    s: Create,
    c: crate::meta::entities::EtcdDirChildren,
    revision: i64,
    ino: i64,
)
    requires
        0 <= at < all.len(),
        kv == all[at].before,
        s.phase == CreatePhase::Commit(c, revision, ino),
        create_knows(s, all),
        kv.all_hold(Create::asks(s)->checks),
    ensures
        create_end(kv, s.params, s.now, ino) == (
            kv.commit(Create::asks(s)->writes),
            Ok::<(Inode, FileAttr), ErrorView>(s.created(ino)),
        ),
{
    let cs = Create::asks(s)->checks;
    assert(kv.holds(cs[0]) && kv.holds(cs[1]));
    assert(all[at].before.map[KeyView::Children(s.params.parent.0)].0 == children_meaning(c));
    lemma_create_commit(kv, s, c.inode, name_set(c.children@), ino);
}

/// A creation from any state on.
proof fn lemma_create_among(
    s: Create,
    all: Seq<Event>,
    at: int,
    end: Result<(Inode, FileAttr), ErrorView>,
    lossy: bool,
)
    requires
        revisions_tell(all),
        0 <= at <= all.len(),
        create_knows(s, all),
        runs_among_others::<Create>(s, all.skip(at), end, lossy),
    ensures
        forall|i: int| at <= i < all.len() - 1 ==> kept(#[trigger] all[i]),
        create_last(all.last(), s.params, s.now, end, lossy),
    decreases all.len() - at,
{
    lemma_rest(all, at);
    let ev = all[at];
    let k = KeyView::Children(s.params.parent.0);
    if ev.before.map.dom().contains(k) {
        lemma_read(all, at, k);
    }
    if let CreatePhase::Commit(c, revision, ino) = s.phase {
        if ev.before.all_hold(Create::asks(s)->checks) {
            lemma_create_held(ev.before, all, at, s, c, revision, ino);
        }
    }
    match Create::after(s, ev.reply) {
        StepView::Next(s2) => lemma_create_among(s2, all, at + 1, end, lossy),
        StepView::Done(_) => {},
    }
}

/// A creation is made at one moment, whatever others do and whatever fails: all events but the
/// last leave the service as it is; the last makes all of the creation, on the state that it
/// meets, if the creation succeeds, and nothing if it fails.
pub proof fn law_create_at_one_moment(
    params: CreateParams,
    now: i64,
    events: Seq<Event>,
    end: Result<(Inode, FileAttr), ErrorView>,
    lossy: bool,
)
    requires
        revisions_tell(events),
        runs_among_others::<Create>(
            Create { params, now, retry: 0, phase: CreatePhase::Parent },
            events,
            end,
            lossy,
        ),
    ensures
        kept_until_last(events),
        create_last(events.last(), params, now, end, lossy),
{
    assert(events.skip(0) =~= events);
    lemma_create_among(
        Create { params, now, retry: 0, phase: CreatePhase::Parent },
        events,
        0,
        end,
        lossy,
    );
}

/// Whether the last event of a move does what its result says.
pub open spec fn rename_last(
    ev: Event,
    old_parent: i64,
    old_name: Seq<char>,
    new_parent: i64,
    new_name: Seq<char>,
    end: Result<(), ErrorView>,
    lossy: bool,
) -> bool {
    let moved = rename_end(ev.before, old_parent, old_name, new_parent, new_name) == (
        ev.after,
        Ok::<(), ErrorView>(()),
    );
    match end {
        Ok(_) => moved,
        Err(_) => kept(ev) || (lossy && moved),
    }
}

/// What a move knows.
spec fn rename_knows(s: Rename, all: Seq<Event>) -> bool {
    match s.phase {
        RenamePhase::Source => true,
        RenamePhase::Target(e, revision) => told(
            all,
            s.old_key(),
            forward_meaning(e),
            revision as int,
        ),
        RenamePhase::OldNames(e, revision, siblings) => {
            &&& told(all, s.old_key(), forward_meaning(e), revision as int)
            &&& siblings_told(all, s.new_parent.0, siblings)
        },
        RenamePhase::Commit { e, revision, to, from } => {
            &&& told(all, s.old_key(), forward_meaning(e), revision as int)
            &&& names_told(all, s.new_parent.0, Some(to))
            &&& names_told(all, s.old_parent.0, from)
        },
    }
}

/// The transaction of a move whose conditions hold is the whole move.
proof fn lemma_rename_held(
    kv: Kv,
    all: Seq<Event>,
    at: int,
    s: Rename,
    e: EtcdForwardEntry,
    revision: i64,
    to: ReadNames,
    from: Option<ReadNames>,
)
    requires
        0 <= at < all.len(),
        kv == all[at].before,
        s.phase == (RenamePhase::Commit { e, revision, to, from }),
        rename_knows(s, all),
        kv.all_hold(Rename::asks(s)->checks),
    ensures
        rename_end(kv, s.old_parent.0, s.old_name@, s.new_parent.0, s.new_name@) == (
            kv.commit(Rename::asks(s)->writes),
            Ok::<(), ErrorView>(()),
        ),
{
    let cs = Rename::asks(s)->checks;
    assert(kv.holds(cs[0]) && kv.holds(cs[1]) && kv.holds(cs[2]));
    assert(all[at].before.map[s.old_key()].0 == forward_meaning(e));
    assert(names_say(kv, s.new_parent.0, Some(to)));
    assert(names_say(kv, s.old_parent.0, from));
    lemma_rename_commit(kv, s, e, to, from);
}

/// A move from any state on.
proof fn lemma_rename_among(
    s: Rename,
    all: Seq<Event>,
    at: int,
    end: Result<(), ErrorView>,
    lossy: bool,
)
    requires
        revisions_tell(all),
        0 <= at <= all.len(),
        rename_knows(s, all),
        runs_among_others::<Rename>(s, all.skip(at), end, lossy),
    ensures
        forall|i: int| at <= i < all.len() - 1 ==> kept(#[trigger] all[i]),
        rename_last(
            all.last(),
            s.old_parent.0,
            s.old_name@,
            s.new_parent.0,
            s.new_name@,
            end,
            lossy,
        ),
    decreases all.len() - at,
{
    lemma_rest(all, at);
    let ev = all[at];
    let kv = ev.before;
    if kv.map.dom().contains(s.old_key()) {
        lemma_read(all, at, s.old_key());
    }
    if kv.map.dom().contains(KeyView::Children(s.new_parent.0)) {
        lemma_read(all, at, KeyView::Children(s.new_parent.0));
    }
    if kv.map.dom().contains(KeyView::Children(s.old_parent.0)) {
        lemma_read(all, at, KeyView::Children(s.old_parent.0));
    }
    if let RenamePhase::Commit { e, revision, to, from } = s.phase {
        if kv.all_hold(Rename::asks(s)->checks) {
            lemma_rename_held(kv, all, at, s, e, revision, to, from);
        }
    }
    match Rename::after(s, ev.reply) {
        StepView::Next(s2) => lemma_rename_among(s2, all, at + 1, end, lossy),
        StepView::Done(_) => {},
    }
}

/// A move is made at one moment, whatever others do and whatever fails.
pub proof fn law_rename_at_one_moment(
    old_parent: Inode,
    old_name: String,
    new_parent: Inode,
    new_name: String,
    events: Seq<Event>,
    end: Result<(), ErrorView>,
    lossy: bool,
)
    requires
        revisions_tell(events),
        runs_among_others::<Rename>(
            Rename {
                old_parent,
                old_name,
                new_parent,
                new_name,
                retry: 0,
                phase: RenamePhase::Source,
            },
            events,
            end,
            lossy,
        ),
    ensures
        kept_until_last(events),
        rename_last(
            events.last(),
            old_parent.0,
            old_name@,
            new_parent.0,
            new_name@,
            end,
            lossy,
        ),
{
    assert(events.skip(0) =~= events);
    let s = Rename {
        old_parent,
        old_name,
        new_parent,
        new_name,
        retry: 0,
        phase: RenamePhase::Source,
    };
    lemma_rename_among(s, events, 0, end, lossy);
}

/// Wherever a name was last written at a revision, it stands for the inode of the kind.
spec fn stands_told(all: Seq<Event>, k: KeyView, revision: i64, ino: i64, file: bool) -> bool {
    forall|i: int|
        0 <= i < all.len() && (#[trigger] all[i]).before.map.dom().contains(k)
            && all[i].before.map[k].1 == revision ==> stands_for(all[i].before, k, ino, file)
}

/// Whether the last event of a removal of a file does what its result says.
pub open spec fn unlink_last(
    ev: Event,
    parent: i64,
    name: Seq<char>,
    end: Result<(), ErrorView>,
    lossy: bool,
) -> bool {
    let gone = unlink_end(ev.before, parent, name) == (ev.after, Ok::<(), ErrorView>(()));
    match end {
        Ok(_) => gone,
        Err(_) => kept(ev) || (lossy && gone),
    }
}

/// What a removal of a file knows.
spec fn unlink_knows(s: Unlink, all: Seq<Event>) -> bool {
    match s.phase {
        UnlinkPhase::Source => true,
        UnlinkPhase::Names(ino, revision) => stands_told(all, s.key(), revision, ino, true),
        UnlinkPhase::Commit { ino, revision, names } => {
            &&& stands_told(all, s.key(), revision, ino, true)
            &&& names_told(all, s.parent.0, names)
        },
    }
}

/// A removal of a file from any state on.
proof fn lemma_unlink_among(
    s: Unlink,
    all: Seq<Event>,
    at: int,
    end: Result<(), ErrorView>,
    lossy: bool,
)
    requires
        revisions_tell(all),
        0 <= at <= all.len(),
        unlink_knows(s, all),
        runs_among_others::<Unlink>(s, all.skip(at), end, lossy),
    ensures
        forall|i: int| at <= i < all.len() - 1 ==> kept(#[trigger] all[i]),
        unlink_last(all.last(), s.parent.0, s.name@, end, lossy),
    decreases all.len() - at,
{
    lemma_rest(all, at);
    let ev = all[at];
    let kv = ev.before;
    if kv.map.dom().contains(s.key()) {
        lemma_read(all, at, s.key());
    }
    if kv.map.dom().contains(KeyView::Children(s.parent.0)) {
        lemma_read(all, at, KeyView::Children(s.parent.0));
    }
    if let UnlinkPhase::Commit { ino, revision, names } = s.phase {
        let cs = Unlink::asks(s)->checks;
        if kv.all_hold(cs) {
            assert(kv.holds(cs[0]) && kv.holds(cs[1]));
            assert(stands_for(all[at].before, s.key(), ino, true));
            assert(names_say(kv, s.parent.0, names));
            lemma_unlink_commit(kv, s, ino, names);
        }
    }
    match Unlink::after(s, ev.reply) {
        StepView::Next(s2) => lemma_unlink_among(s2, all, at + 1, end, lossy),
        StepView::Done(_) => {},
    }
}

/// A removal of a file is made at one moment, whatever others do and whatever fails.
pub proof fn law_unlink_at_one_moment(
    parent: Inode,
    name: String,
    events: Seq<Event>,
    end: Result<(), ErrorView>,
    lossy: bool,
)
    requires
        revisions_tell(events),
        runs_among_others::<Unlink>(
            Unlink { parent, name, retry: 0, phase: UnlinkPhase::Source },
            events,
            end,
            lossy,
        ),
    ensures
        kept_until_last(events),
        unlink_last(events.last(), parent.0, name@, end, lossy),
{
    assert(events.skip(0) =~= events);
    let s = Unlink { parent, name, retry: 0, phase: UnlinkPhase::Source };
    lemma_unlink_among(s, events, 0, end, lossy);
}

/// Wherever the names in a directory were last written at a revision, there are none.
spec fn empty_told(all: Seq<Event>, ino: i64, own: Option<i64>) -> bool {
    own matches Some(revision) ==> forall|i: int|
        0 <= i < all.len() && (#[trigger] all[i]).before.map.dom().contains(KeyView::Children(ino))
            && all[i].before.map[KeyView::Children(ino)].1 == revision ==> is_empty_dir(
            all[i].before,
            ino,
        )
}

/// Whether the last event of a removal of a directory does what its result says.
pub open spec fn rmdir_last(
    ev: Event,
    parent: i64,
    name: Seq<char>,
    end: Result<(), ErrorView>,
    lossy: bool,
) -> bool {
    let gone = rmdir_end(ev.before, parent, name) == (ev.after, Ok::<(), ErrorView>(()));
    match end {
        Ok(_) => gone,
        Err(_) => kept(ev) || (lossy && gone),
    }
}

/// What a removal of a directory knows.
spec fn rmdir_knows(s: Rmdir, all: Seq<Event>) -> bool {
    match s.phase {
        RmdirPhase::Source => true,
        RmdirPhase::OwnNames(ino, revision) => stands_told(all, s.key(), revision, ino, false),
        RmdirPhase::Names { ino, revision, own } => {
            &&& stands_told(all, s.key(), revision, ino, false)
            &&& empty_told(all, ino, own)
        },
        RmdirPhase::Commit { ino, revision, own, names } => {
            &&& stands_told(all, s.key(), revision, ino, false)
            &&& empty_told(all, ino, own)
            &&& names_told(all, s.parent.0, names)
        },
    }
}

/// Names that are read as none are none.
proof fn lemma_own_names(s: Rmdir, all: Seq<Event>, at: int)
    requires
        revisions_tell(all),
        0 <= at < all.len(),
        s.phase is OwnNames,
        rmdir_knows(s, all),
        answers(all[at].before, Rmdir::asks(s), all[at].reply, all[at].after),
    ensures
        Rmdir::after(s, all[at].reply) matches StepView::Next(s2) ==> rmdir_knows(s2, all),
{
    if let RmdirPhase::OwnNames(ino, _) = s.phase {
        let k = KeyView::Children(ino);
        if let Reply::Value(Some((Value::Children(c), revision))) = all[at].reply {
            if c.children@.len() == 0 {
                lemma_read(all, at, k);
                assert(name_set(c.children@) =~= Set::empty());
                assert(empty_told(all, ino, Some(revision)));
            }
        }
    }
}

/// A removal of a directory from any state on.
proof fn lemma_rmdir_among(
    s: Rmdir,
    all: Seq<Event>,
    at: int,
    end: Result<(), ErrorView>,
    lossy: bool,
)
    requires
        revisions_tell(all),
        0 <= at <= all.len(),
        rmdir_knows(s, all),
        runs_among_others::<Rmdir>(s, all.skip(at), end, lossy),
    ensures
        forall|i: int| at <= i < all.len() - 1 ==> kept(#[trigger] all[i]),
        rmdir_last(all.last(), s.parent.0, s.name@, end, lossy),
    decreases all.len() - at,
{
    lemma_rest(all, at);
    let ev = all[at];
    let kv = ev.before;
    if kv.map.dom().contains(s.key()) {
        lemma_read(all, at, s.key());
    }
    if kv.map.dom().contains(KeyView::Children(s.parent.0)) {
        lemma_read(all, at, KeyView::Children(s.parent.0));
    }
    if s.phase is OwnNames && answers(kv, Rmdir::asks(s), ev.reply, ev.after) {
        lemma_own_names(s, all, at);
    }
    if let RmdirPhase::Commit { ino, revision, own, names } = s.phase {
        let cs = Rmdir::asks(s)->checks;
        if kv.all_hold(cs) {
            assert(kv.holds(cs[0]) && kv.holds(cs[1]) && kv.holds(cs[2]));
            assert(stands_for(all[at].before, s.key(), ino, false));
            assert(is_empty_dir(kv, ino));
            assert(names_say(kv, s.parent.0, names));
            lemma_rmdir_commit(kv, s, ino, names);
        }
    }
    match Rmdir::after(s, ev.reply) {
        StepView::Next(s2) => lemma_rmdir_among(s2, all, at + 1, end, lossy),
        StepView::Done(_) => {},
    }
}

/// A removal of a directory is made at one moment, whatever others do and whatever fails: the
/// directory is empty at that moment.
pub proof fn law_rmdir_at_one_moment(
    parent: Inode,
    name: String,
    events: Seq<Event>,
    end: Result<(), ErrorView>,
    lossy: bool,
)
    requires
        revisions_tell(events),
        runs_among_others::<Rmdir>(
            Rmdir { parent, name, retry: 0, phase: RmdirPhase::Source },
            events,
            end,
            lossy,
        ),
    ensures
        kept_until_last(events),
        rmdir_last(events.last(), parent.0, name@, end, lossy),
{
    assert(events.skip(0) =~= events);
    let s = Rmdir { parent, name, retry: 0, phase: RmdirPhase::Source };
    lemma_rmdir_among(s, events, 0, end, lossy);
}

/// Where nobody disturbs and every event keeps the service, it is at the end as at the beginning.
proof fn lemma_kept(events: Seq<Event>, n: int)
    requires
        0 < n <= events.len(),
        undisturbed(events),
        forall|i: int| 0 <= i < n ==> kept(#[trigger] events[i]),
    ensures
        events[n - 1].after == events[0].before,
    decreases n,
{
    if n > 1 {
        lemma_kept(events, n - 1);
        assert(events[n - 2 + 1].before == events[n - 2].after);
    }
}

/// A creation that fails where no reply is lost changes nothing with any request.
proof fn lemma_failed_create(
    s: Create,
    events: Seq<Event>,
    end: Result<(Inode, FileAttr), ErrorView>,
)
    requires
        runs_among_others::<Create>(s, events, end, false),
        end is Err,
    ensures
        forall|i: int| 0 <= i < events.len() ==> kept(#[trigger] events[i]),
    decreases events.len(),
{
    let rest = events.drop_first();
    if let StepView::Next(s2) = Create::after(s, events[0].reply) {
        lemma_failed_create(s2, rest, end);
        assert forall|i: int| 0 <= i < events.len() implies kept(#[trigger] events[i]) by {
            if i > 0 {
                assert(kept(rest[i - 1]));
            }
        }
    }
}

/// A creation that fails, at whatever request, leaves no trace, whatever others do: no request of
/// it changes anything, so that every key is as it was where nobody else writes.
pub proof fn law_failed_create_leaves_no_trace(
    params: CreateParams,
    now: i64,
    events: Seq<Event>,
    end: Result<(Inode, FileAttr), ErrorView>,
)
    requires
        runs_among_others::<Create>(
            Create { params, now, retry: 0, phase: CreatePhase::Parent },
            events,
            end,
            false,
        ),
        end is Err,
    ensures
        forall|i: int| 0 <= i < events.len() ==> kept(#[trigger] events[i]),
        undisturbed(events) ==> events.last().after == events[0].before,
{
    lemma_failed_create(
        Create { params, now, retry: 0, phase: CreatePhase::Parent },
        events,
        end,
    );
    if undisturbed(events) {
        lemma_kept(events, events.len() as int);
    }
}

/// A move that fails where no reply is lost changes nothing with any request.
proof fn lemma_failed_rename(s: Rename, events: Seq<Event>, end: Result<(), ErrorView>)
    requires
        runs_among_others::<Rename>(s, events, end, false),
        end is Err,
    ensures
        forall|i: int| 0 <= i < events.len() ==> kept(#[trigger] events[i]),
    decreases events.len(),
{
    let rest = events.drop_first();
    if let StepView::Next(s2) = Rename::after(s, events[0].reply) {
        lemma_failed_rename(s2, rest, end);
        assert forall|i: int| 0 <= i < events.len() implies kept(#[trigger] events[i]) by {
            if i > 0 {
                assert(kept(rest[i - 1]));
            }
        }
    }
}

/// A move that fails, at whatever request, leaves no trace, whatever others do.
pub proof fn law_failed_rename_leaves_no_trace(
    old_parent: Inode,
    old_name: String,
    new_parent: Inode,
    new_name: String,
    events: Seq<Event>,
    end: Result<(), ErrorView>,
)
    requires
        runs_among_others::<Rename>(
            Rename {
                old_parent,
                old_name,
                new_parent,
                new_name,
                retry: 0,
                phase: RenamePhase::Source,
            },
            events,
            end,
            false,
        ),
        end is Err,
    ensures
        forall|i: int| 0 <= i < events.len() ==> kept(#[trigger] events[i]),
        undisturbed(events) ==> events.last().after == events[0].before,
{
    lemma_failed_rename(
        Rename {
            old_parent,
            old_name,
            new_parent,
            new_name,
            retry: 0,
            phase: RenamePhase::Source,
        },
        events,
        end,
    );
    if undisturbed(events) {
        lemma_kept(events, events.len() as int);
    }
}

/// A removal of a file that fails where no reply is lost changes nothing with any request.
proof fn lemma_failed_unlink(s: Unlink, events: Seq<Event>, end: Result<(), ErrorView>)
    requires
        runs_among_others::<Unlink>(s, events, end, false),
        end is Err,
    ensures
        forall|i: int| 0 <= i < events.len() ==> kept(#[trigger] events[i]),
    decreases events.len(),
{
    let rest = events.drop_first();
    if let StepView::Next(s2) = Unlink::after(s, events[0].reply) {
        lemma_failed_unlink(s2, rest, end);
        assert forall|i: int| 0 <= i < events.len() implies kept(#[trigger] events[i]) by {
            if i > 0 {
                assert(kept(rest[i - 1]));
            }
        }
    }
}

/// A removal of a file that fails, at whatever request, leaves no trace, whatever others do.
pub proof fn law_failed_unlink_leaves_no_trace(
    parent: Inode,
    name: String,
    events: Seq<Event>,
    end: Result<(), ErrorView>,
)
    requires
        runs_among_others::<Unlink>(
            Unlink { parent, name, retry: 0, phase: UnlinkPhase::Source },
            events,
            end,
            false,
        ),
        end is Err,
    ensures
        forall|i: int| 0 <= i < events.len() ==> kept(#[trigger] events[i]),
        undisturbed(events) ==> events.last().after == events[0].before,
{
    lemma_failed_unlink(
        Unlink { parent, name, retry: 0, phase: UnlinkPhase::Source },
        events,
        end,
    );
    if undisturbed(events) {
        lemma_kept(events, events.len() as int);
    }
}

/// A removal of a directory that fails where no reply is lost changes nothing with any request.
proof fn lemma_failed_rmdir(s: Rmdir, events: Seq<Event>, end: Result<(), ErrorView>)
    requires
        runs_among_others::<Rmdir>(s, events, end, false),
        end is Err,
    ensures
        forall|i: int| 0 <= i < events.len() ==> kept(#[trigger] events[i]),
    decreases events.len(),
{
    let rest = events.drop_first();
    if let StepView::Next(s2) = Rmdir::after(s, events[0].reply) {
        lemma_failed_rmdir(s2, rest, end);
        assert forall|i: int| 0 <= i < events.len() implies kept(#[trigger] events[i]) by {
            if i > 0 {
                assert(kept(rest[i - 1]));
            }
        }
    }
}

/// A removal of a directory that fails, at whatever request, leaves no trace, whatever others do.
pub proof fn law_failed_rmdir_leaves_no_trace(
    parent: Inode,
    name: String,
    events: Seq<Event>,
    end: Result<(), ErrorView>,
)
    requires
        runs_among_others::<Rmdir>(
            Rmdir { parent, name, retry: 0, phase: RmdirPhase::Source },
            events,
            end,
            false,
        ),
        end is Err,
    ensures
        forall|i: int| 0 <= i < events.len() ==> kept(#[trigger] events[i]),
        undisturbed(events) ==> events.last().after == events[0].before,
{
    lemma_failed_rmdir(
        Rmdir { parent, name, retry: 0, phase: RmdirPhase::Source },
        events,
        end,
    );
    if undisturbed(events) {
        lemma_kept(events, events.len() as int);
    }
}

/// An update of attributes that fails, at whatever request, changes nothing or is made in full:
/// only the reading back can fail after the write.
pub proof fn law_failed_setattr_changes_nothing_or_all(
    ino: Inode,
    mask: SetAttrMask,
    now: i64,
    events: Seq<Event>,
    end: Result<FileAttr, ErrorView>,
    lossy: bool,
)
    requires
        undisturbed(events),
        runs_among_others::<Setattr>(
            Setattr { ino, mask, now, phase: SetattrPhase::Read },
            events,
            end,
            lossy,
        ),
        end is Err,
    ensures
        events.last().after == events[0].before || events.last().after == setattr_end(
            events[0].before,
            ino.0,
            mask,
            now,
        ).0,
{
    reveal_with_fuel(runs_among_others, 4);
    if events.len() > 1 {
        assert(events[1].before == events[0].after);
        if events.len() > 2 {
            assert(events[2].before == events[1].after);
        }
    }
}

/// Whether the last event of a creation with standard permissions does what its result says.
pub open spec fn plain_last(
    ev: Event,
    s: PlainState,
    end: Result<i64, ErrorView>,
    lossy: bool,
) -> bool {
    match end {
        Ok(ino) => ev.after == plain_written(s, ev.before, ino),
        Err(_) => kept(ev) || (lossy && exists|ino: i64|
            ev.after == #[trigger] plain_written(s, ev.before, ino)),
    }
}

/// What a creation with standard permissions knows.
spec fn plain_knows(s: PlainState, all: Seq<Event>) -> bool {
    s.at matches PlainAt::Commit { names, revision, .. } ==> forall|i: int|
        0 <= i < all.len() && (#[trigger] all[i]).before.holds(
            as_read(KeyView::Children(s.parent), revision),
        ) ==> names == plain_names(s, all[i].before)
}

/// A creation with standard permissions from any state on.
proof fn lemma_plain_among(
    s: PlainState,
    all: Seq<Event>,
    at: int,
    end: Result<i64, ErrorView>,
    lossy: bool,
)
    requires
        revisions_tell(all),
        0 <= at <= all.len(),
        plain_knows(s, all),
        runs_among_others::<PlainCreate>(s, all.skip(at), end, lossy),
    ensures
        forall|i: int| at <= i < all.len() - 1 ==> kept(#[trigger] all[i]),
        plain_last(
            all.last(),
            PlainState { retry: 0, at: PlainAt::Names, ..s },
            end,
            lossy,
        ),
    decreases all.len() - at,
{
    lemma_rest(all, at);
    let ev = all[at];
    let kv = ev.before;
    let k = KeyView::Children(s.parent);
    if kv.map.dom().contains(k) {
        lemma_read(all, at, k);
    }
    if let PlainAt::Commit { ino, names, revision } = s.at {
        let cs = PlainCreate::asks(s)->checks;
        if kv.all_hold(cs) {
            assert(kv.holds(cs[0]));
            assert(names == plain_names(s, all[at].before));
            let plain = PlainState { retry: 0, at: PlainAt::Names, ..s };
            lemma_plain_commit(plain, kv, ino);
            assert(plain_names(s, kv) == plain_names(plain, kv));
            assert(s.writes(ino, names) == plain.writes(ino, names));
        }
    }
    match PlainCreate::after(s, ev.reply) {
        StepView::Next(s2) => {
            assert(plain_knows(s2, all));
            lemma_plain_among(s2, all, at + 1, end, lossy);
        },
        StepView::Done(_) => {},
    }
}

/// A creation with standard permissions is made at one moment, whatever others do and whatever
/// fails.
pub proof fn law_plain_create_at_one_moment(
    parent: i64,
    name: Seq<char>,
    kind: EntryType,
    now: i64,
    events: Seq<Event>,
    end: Result<i64, ErrorView>,
    lossy: bool,
)
    requires
        revisions_tell(events),
        runs_among_others::<PlainCreate>(
            PlainState { parent, name, kind, now, retry: 0, at: PlainState::first(parent) },
            events,
            end,
            lossy,
        ),
    ensures
        kept_until_last(events),
        plain_last(
            events.last(),
            PlainState { parent, name, kind, now, retry: 0, at: PlainAt::Names },
            end,
            lossy,
        ),
{
    assert(events.skip(0) =~= events);
    let s = PlainState { parent, name, kind, now, retry: 0, at: PlainState::first(parent) };
    lemma_plain_among(s, events, 0, end, lossy);
}

/// The preparation of the root directory drops no name: every request leaves the service as it is,
/// or writes an empty list of names where there is none at that moment.
pub proof fn law_root_keeps_its_names(
    events: Seq<Event>,
    end: Result<(), ErrorView>,
    lossy: bool,
    i: int,
)
    requires
        runs_among_others::<InitRoot>(InitRoot::Read, events, end, lossy),
        0 <= i < events.len(),
    ensures
        kept(events[i]) || (!events[i].before.map.dom().contains(KeyView::Children(1))
            && events[i].after == events[i].before.put(
            KeyView::Children(1),
            Meaning::Children { inode: 1, names: Set::empty() },
        )),
{
    reveal_with_fuel(runs_among_others, 3);
    let kv = events[i].before;
    let cs = InitRoot::asks(InitRoot::Write)->checks;
    let w = WriteView::Put(
        KeyView::Children(1),
        Meaning::Children { inode: 1, names: Set::empty() },
    );
    lemma_written_push(kv.map, Seq::empty(), w, kv.revision + 1);
    assert(seq![w] =~= Seq::empty().push(w));
    if kv.all_hold(cs) {
        assert(cs[0] == CheckView::Absent(KeyView::Children(1)));
        assert(kv.holds(cs[0]));
    }
    assert(events.len() <= 2);
}

} // verus!
