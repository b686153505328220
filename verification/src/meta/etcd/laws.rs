//! What the operations on the key-value service do as a whole.

use crate::meta::etcd::kv::{
    distinct, lemma_written_push, name_set, runs, CheckView, KeyView, Kv, Meaning, Operation, Reply,
    Value, WriteView,
};
use crate::meta::etcd::store::{
    attr_of, drop_writes, new_info, root_attr, updated, Create, CreatePhase, Getattr, Lookup,
    ReadNames, Readdir, ReaddirState, Rename, RenamePhase, Rmdir, RmdirPhase, Setattr, SetattrPhase,
    Unlink, UnlinkPhase,
};
use crate::meta::store::{DirEntry, ErrorView, FileAttr, FileType};
use crate::meta::types::{CreateParams, Inode, SetAttrMask};
use vstd::prelude::*;

verus! {

/// Every key holds the kind of value that its prefix says.
pub open spec fn sane(kv: Kv) -> bool {
    forall|k: KeyView| #[trigger]
        kv.map.dom().contains(k) ==> match k {
            KeyView::Forward(_, _) => kv.map[k].0 is Forward,
            KeyView::Entry(_) => kv.map[k].0 is Entry,
            KeyView::Children(_) => kv.map[k].0 is Children,
            KeyView::Plain(_) => true,
        }
}

/// The number that a creation was given.
pub open spec fn given_id(trace: Seq<(Reply, Kv)>) -> i64 {
    match trace[2].0 {
        Reply::Id(ino) => ino,
        _ => 0,
    }
}

/// What a creation that is given the number `ino` makes of the service, and its result.
pub open spec fn create_end(kv: Kv, params: CreateParams, now: i64, ino: i64) -> (
    Kv,
    Result<(Inode, FileAttr), ErrorView>,
) {
    let parent = params.parent.0;
    let name = params.name@;
    match kv.get(KeyView::Children(parent)) {
        Some(Meaning::Children { inode, names }) => if kv.get(KeyView::Forward(parent, name)) is Some {
            (kv, Err(ErrorView::AlreadyExists { parent, name }))
        } else {
            let is_file = params.kind == FileType::File;
            let info = new_info(params, now);
            let rev = kv.revision + 1;
            let three = kv.map.insert(KeyView::Entry(ino), (Meaning::Entry(info), rev)).insert(
                KeyView::Forward(parent, name),
                (Meaning::Forward { parent, name, inode: ino, is_file }, rev),
            ).insert(
                KeyView::Children(parent),
                (Meaning::Children { inode, names: names.insert(name) }, rev),
            );
            let map = if is_file {
                three
            } else {
                three.insert(
                    KeyView::Children(ino),
                    (Meaning::Children { inode: ino, names: Set::empty() }, rev),
                )
            };
            (Kv { map, revision: rev }, Ok((Inode(ino), attr_of(ino, info))))
        },
        _ => (kv, Err(ErrorView::ParentNotFound(parent))),
    }
}

/// The transaction of a creation makes of the service what `create_end` says, where the names in
/// the parent are what the creation takes them for and the name is free.
pub proof fn lemma_create_commit(kv: Kv, s: Create, of: i64, names: Set<Seq<char>>, ino: i64)
    requires
        kv.get(KeyView::Children(s.params.parent.0)) == Some(
            Meaning::Children { inode: of, names },
        ),
        kv.get(s.name_key()) is None,
    ensures
        create_end(kv, s.params, s.now, ino) == (
            kv.commit(s.writes(of, names, ino)),
            Ok::<(Inode, FileAttr), ErrorView>(s.created(ino)),
        ),
{
    let rev = kv.revision + 1;
    let ws = s.writes(of, names, ino);
    let e = Seq::<WriteView>::empty();
    lemma_written_push(kv.map, e, ws[0], rev);
    lemma_written_push(kv.map, e.push(ws[0]), ws[1], rev);
    lemma_written_push(kv.map, e.push(ws[0]).push(ws[1]), ws[2], rev);
    if s.params.kind != FileType::File {
        lemma_written_push(kv.map, e.push(ws[0]).push(ws[1]).push(ws[2]), ws[3], rev);
    }
}

/// A creation that runs to its end does what `create_end` says.
pub proof fn law_create_runs(
    kv: Kv,
    params: CreateParams,
    now: i64,
    trace: Seq<(Reply, Kv)>,
    end: (Kv, Result<(Inode, FileAttr), ErrorView>),
)
    requires
        sane(kv),
        runs::<Create>(
            Create { params, now, retry: 0, phase: CreatePhase::Parent },
            kv,
            trace,
            end,
        ),
    ensures
        end == create_end(kv, params, now, given_id(trace)),
{
    reveal_with_fuel(runs, 5);
    let parent = params.parent.0;
    let k = KeyView::Children(parent);
    let s = Create { params, now, retry: 0, phase: CreatePhase::Parent };
    assert(kv.map.dom().contains(k) ==> kv.map[k].0 is Children);
    match trace[0].0 {
        Reply::Value(Some((Value::Children(c), revision))) => {
            if kv.get(s.name_key()) is None {
                let names = name_set(c.children@);
                let ino = given_id(trace);
                lemma_create_commit(kv, s, c.inode, names, ino);
                let s2 = s.at(CreatePhase::Commit(c, revision, ino));
                let cs = Create::asks(s2)->checks;
                assert(cs[0] == CheckView::Unchanged(k, revision));
                assert(cs[1] == CheckView::Absent(s.name_key()));
                assert(kv.all_hold(cs));
                assert(s2.writes(c.inode, names, ino) == s.writes(c.inode, names, ino));
            }
        },
        _ => {},
    }
}

/// What attributes are read as.
pub open spec fn getattr_end(kv: Kv, ino: i64) -> Result<FileAttr, ErrorView> {
    match kv.get(KeyView::Entry(ino)) {
        Some(Meaning::Entry(info)) => Ok(attr_of(ino, info)),
        _ => Err(ErrorView::NotFound(ino)),
    }
}

/// Attributes that are read to the end are what `getattr_end` says, and reading changes nothing.
pub proof fn law_getattr_runs(
    kv: Kv,
    ino: i64,
    trace: Seq<(Reply, Kv)>,
    end: (Kv, Result<FileAttr, ErrorView>),
)
    requires
        sane(kv),
        runs::<Getattr>(Getattr { ino: Inode(ino) }, kv, trace, end),
    ensures
        end == (kv, getattr_end(kv, ino)),
{
    let k = KeyView::Entry(ino);
    assert(kv.map.dom().contains(k) ==> kv.map[k].0 is Entry);
}

/// What a look-up finds.
pub open spec fn lookup_end(kv: Kv, parent: i64, name: Seq<char>) -> Result<Inode, ErrorView> {
    match kv.get(KeyView::Forward(parent, name)) {
        Some(Meaning::Forward { inode, .. }) => Ok(Inode(inode)),
        _ => Err(ErrorView::NotFound(parent)),
    }
}

/// A look-up that runs to its end finds what `lookup_end` says, and changes nothing.
pub proof fn law_lookup_runs(
    kv: Kv,
    parent: i64,
    name: String,
    trace: Seq<(Reply, Kv)>,
    end: (Kv, Result<Inode, ErrorView>),
)
    requires
        sane(kv),
        runs::<Lookup>(Lookup { parent: Inode(parent), name }, kv, trace, end),
    ensures
        end == (kv, lookup_end(kv, parent, name@)),
{
    let k = KeyView::Forward(parent, name@);
    assert(kv.map.dom().contains(k) ==> kv.map[k].0 is Forward);
}

/// What an update makes of the service, and its result.
pub open spec fn setattr_end(kv: Kv, ino: i64, mask: SetAttrMask, now: i64) -> (
    Kv,
    Result<FileAttr, ErrorView>,
) {
    match kv.get(KeyView::Entry(ino)) {
        Some(Meaning::Entry(info)) => (
            kv.put(KeyView::Entry(ino), Meaning::Entry(updated(info, mask))),
            Ok(
                if ino == 1 {
                    root_attr(now)
                } else {
                    attr_of(ino, updated(info, mask))
                },
            ),
        ),
        _ => (kv, Err(ErrorView::NotFound(ino))),
    }
}

/// An update that runs to its end does what `setattr_end` says.
pub proof fn law_setattr_runs(
    kv: Kv,
    ino: i64,
    mask: SetAttrMask,
    now: i64,
    trace: Seq<(Reply, Kv)>,
    end: (Kv, Result<FileAttr, ErrorView>),
)
    requires
        sane(kv),
        runs::<Setattr>(
            Setattr { ino: Inode(ino), mask, now, phase: SetattrPhase::Read },
            kv,
            trace,
            end,
        ),
    ensures
        end == setattr_end(kv, ino, mask, now),
{
    reveal_with_fuel(runs, 4);
    let k = KeyView::Entry(ino);
    assert(kv.map.dom().contains(k) ==> kv.map[k].0 is Entry);
}

/// What a move makes of the service, and its result.
pub open spec fn rename_end(
    kv: Kv,
    old_parent: i64,
    old_name: Seq<char>,
    new_parent: i64,
    new_name: Seq<char>,
) -> (Kv, Result<(), ErrorView>) {
    match kv.get(KeyView::Forward(old_parent, old_name)) {
        Some(Meaning::Forward { inode, is_file, .. }) => match kv.get(
            KeyView::Children(new_parent),
        ) {
            Some(Meaning::Children { inode: at, names: siblings }) => {
                let rev = kv.revision + 1;
                let names = if old_parent == new_parent {
                    kv.map.insert(
                        KeyView::Children(new_parent),
                        (
                            Meaning::Children {
                                inode: at,
                                names: siblings.remove(old_name).insert(new_name),
                            },
                            rev,
                        ),
                    )
                } else {
                    (match kv.get(KeyView::Children(old_parent)) {
                        Some(Meaning::Children { inode: of, names }) => kv.map.insert(
                            KeyView::Children(old_parent),
                            (Meaning::Children { inode: of, names: names.remove(old_name) }, rev),
                        ),
                        _ => kv.map,
                    }).insert(
                        KeyView::Children(new_parent),
                        (Meaning::Children { inode: at, names: siblings.insert(new_name) }, rev),
                    )
                };
                let map = names.remove(KeyView::Forward(old_parent, old_name)).insert(
                    KeyView::Forward(new_parent, new_name),
                    (
                        Meaning::Forward { parent: new_parent, name: new_name, inode, is_file },
                        rev,
                    ),
                );
                (Kv { map, revision: rev }, Ok(()))
            },
            _ => (kv, Err(ErrorView::ParentNotFound(new_parent))),
        },
        _ => (kv, Err(ErrorView::NotFound(old_parent))),
    }
}

/// What names that were read say.
pub open spec fn names_say(kv: Kv, ino: i64, names: Option<ReadNames>) -> bool {
    match names {
        Some((c, _)) => kv.get(KeyView::Children(ino)) == Some(
            Meaning::Children { inode: c.inode, names: name_set(c.children@) },
        ),
        None => kv.get(KeyView::Children(ino)) is None,
    }
}

/// The transaction of a move makes of the service what `rename_end` says, where the old name and
/// the names in both directories are what the move takes them for.
pub proof fn lemma_rename_commit(
    kv: Kv,
    s: Rename,
    e: crate::meta::entities::EtcdForwardEntry,
    to: ReadNames,
    from: Option<ReadNames>,
)
    requires
        kv.get(s.old_key()) == Some(crate::meta::etcd::kv::forward_meaning(e)),
        names_say(kv, s.new_parent.0, Some(to)),
        names_say(kv, s.old_parent.0, from),
    ensures
        rename_end(kv, s.old_parent.0, s.old_name@, s.new_parent.0, s.new_name@) == (
            kv.commit(s.writes(e, to.0, from)),
            Ok::<(), ErrorView>(()),
        ),
{
    let rev = kv.revision + 1;
    let none = Seq::<WriteView>::empty();
    let nw = s.name_writes(to.0, from);
    lemma_written_push(kv.map, none, nw[0], rev);
    if nw.len() == 2 {
        lemma_written_push(kv.map, none.push(nw[0]), nw[1], rev);
    }
    let put = s.writes(e, to.0, from).last();
    if s.old_key() == s.new_key() {
        lemma_written_push(kv.map, nw, put, rev);
    } else {
        let del = WriteView::Delete(s.old_key());
        lemma_written_push(kv.map, nw, del, rev);
        lemma_written_push(kv.map, nw.push(del), put, rev);
    }
    assert(kv.commit(s.writes(e, to.0, from)).map =~= rename_end(
        kv,
        s.old_parent.0,
        s.old_name@,
        s.new_parent.0,
        s.new_name@,
    ).0.map);
}

/// A move that runs to its end does what `rename_end` says.
pub proof fn law_rename_runs(
    kv: Kv,
    old_parent: i64,
    old_name: String,
    new_parent: i64,
    new_name: String,
    trace: Seq<(Reply, Kv)>,
    end: (Kv, Result<(), ErrorView>),
)
    requires
        sane(kv),
        runs::<Rename>(
            Rename {
                old_parent: Inode(old_parent),
                old_name,
                new_parent: Inode(new_parent),
                new_name,
                retry: 0,
                phase: RenamePhase::Source,
            },
            kv,
            trace,
            end,
        ),
    ensures
        end == rename_end(kv, old_parent, old_name@, new_parent, new_name@),
{
    reveal_with_fuel(runs, 5);
    let s = Rename {
        old_parent: Inode(old_parent),
        old_name,
        new_parent: Inode(new_parent),
        new_name,
        retry: 0,
        phase: RenamePhase::Source,
    };
    let k = s.old_key();
    assert(kv.map.dom().contains(k) ==> kv.map[k].0 is Forward);
    let to_key = KeyView::Children(new_parent);
    assert(kv.map.dom().contains(to_key) ==> kv.map[to_key].0 is Children);
    let from_key = KeyView::Children(old_parent);
    assert(kv.map.dom().contains(from_key) ==> kv.map[from_key].0 is Children);
    if kv.map.dom().contains(k) && kv.map.dom().contains(to_key) {
        let (e, revision) = match trace[0].0 {
            Reply::Value(Some((Value::Forward(e), revision))) => (e, revision),
            _ => arbitrary(),
        };
        let to = match trace[1].0 {
            Reply::Value(Some((Value::Children(c), at))) => (c, at),
            _ => arbitrary(),
        };
        let from = match trace[2].0 {
            Reply::Value(Some((Value::Children(c), at))) => Some((c, at)),
            _ => None,
        };
        lemma_rename_commit(kv, s, e, to, from);
        let s2 = s.at(RenamePhase::Commit { e, revision, to, from });
        let cs = Rename::asks(s2)->checks;
        assert(kv.holds(cs[0]) && kv.holds(cs[1]) && kv.holds(cs[2]));
        assert(kv.all_hold(cs));
        assert(s2.writes(e, to.0, from) == s.writes(e, to.0, from));
    }
}

/// The keys where a name is taken out of the names in its directory.
pub open spec fn name_dropped(kv: Kv, parent: i64, name: Seq<char>) -> Map<
    KeyView,
    (Meaning, int),
> {
    match kv.get(KeyView::Children(parent)) {
        Some(Meaning::Children { inode, names }) => kv.map.insert(
            KeyView::Children(parent),
            (Meaning::Children { inode, names: names.remove(name) }, kv.revision + 1),
        ),
        _ => kv.map,
    }
}

/// What the removal of a file makes of the service, and its result.
pub open spec fn unlink_end(kv: Kv, parent: i64, name: Seq<char>) -> (Kv, Result<(), ErrorView>) {
    match kv.get(KeyView::Forward(parent, name)) {
        Some(Meaning::Forward { inode, is_file, .. }) => if is_file {
            (
                Kv {
                    map: name_dropped(kv, parent, name).remove(
                        KeyView::Forward(parent, name),
                    ).remove(KeyView::Entry(inode)),
                    revision: kv.revision + 1,
                },
                Ok(()),
            )
        } else {
            (kv, Err(ErrorView::Internal("Cannot unlink directory, use rmdir"@)))
        },
        _ => (kv, Err(ErrorView::NotFound(parent))),
    }
}

/// The keys where the names in a directory are written without one.
proof fn lemma_drop_writes(kv: Kv, parent: i64, name: Seq<char>, names: Option<ReadNames>)
    requires
        names_say(kv, parent, names),
    ensures
        Kv::all_written(kv.map, drop_writes(parent, name, names), kv.revision + 1) == name_dropped(
            kv,
            parent,
            name,
        ),
{
    let ws = drop_writes(parent, name, names);
    if names is Some {
        lemma_written_push(kv.map, Seq::empty(), ws[0], kv.revision + 1);
    }
}

/// Whether a key of a name stands for an inode of the kind.
pub open spec fn stands_for(kv: Kv, k: KeyView, ino: i64, file: bool) -> bool {
    kv.get(k) matches Some(Meaning::Forward { inode, is_file, .. }) && inode == ino && is_file
        == file
}

/// The transaction of a removal of a file makes of the service what `unlink_end` says, where the
/// name and the names in the parent are what the removal takes them for.
pub proof fn lemma_unlink_commit(
    kv: Kv,
    s: Unlink,
    ino: i64,
    names: Option<ReadNames>,
)
    requires
        stands_for(kv, s.key(), ino, true),
        names_say(kv, s.parent.0, names),
    ensures
        unlink_end(kv, s.parent.0, s.name@) == (
            kv.commit(s.writes(ino, names)),
            Ok::<(), ErrorView>(()),
        ),
{
    let rev = kv.revision + 1;
    let dw = drop_writes(s.parent.0, s.name@, names);
    lemma_drop_writes(kv, s.parent.0, s.name@, names);
    let del = WriteView::Delete(s.key());
    lemma_written_push(kv.map, dw, del, rev);
    lemma_written_push(kv.map, dw.push(del), WriteView::Delete(KeyView::Entry(ino)), rev);
}

/// A removal of a file that runs to its end does what `unlink_end` says.
pub proof fn law_unlink_runs(
    kv: Kv,
    parent: i64,
    name: String,
    trace: Seq<(Reply, Kv)>,
    end: (Kv, Result<(), ErrorView>),
)
    requires
        sane(kv),
        runs::<Unlink>(
            Unlink { parent: Inode(parent), name, retry: 0, phase: UnlinkPhase::Source },
            kv,
            trace,
            end,
        ),
    ensures
        end == unlink_end(kv, parent, name@),
{
    reveal_with_fuel(runs, 4);
    let s = Unlink { parent: Inode(parent), name, retry: 0, phase: UnlinkPhase::Source };
    let k = s.key();
    assert(kv.map.dom().contains(k) ==> kv.map[k].0 is Forward);
    let names_key = KeyView::Children(parent);
    assert(kv.map.dom().contains(names_key) ==> kv.map[names_key].0 is Children);
    match trace[0].0 {
        Reply::Value(Some((Value::Forward(e), revision))) => {
            if e.is_file {
                let names = match trace[1].0 {
                    Reply::Value(Some((Value::Children(c), at))) => Some((c, at)),
                    _ => None,
                };
                lemma_unlink_commit(kv, s, e.inode, names);
                let s2 = s.at(UnlinkPhase::Commit { ino: e.inode, revision, names });
                let cs = Unlink::asks(s2)->checks;
                assert(kv.holds(cs[0]) && kv.holds(cs[1]));
                assert(kv.all_hold(cs));
                assert(s2.writes(e.inode, names) == s.writes(e.inode, names));
            }
        },
        _ => {},
    }
}

/// Whether a directory has no names in it.
pub open spec fn is_empty_dir(kv: Kv, ino: i64) -> bool {
    match kv.get(KeyView::Children(ino)) {
        Some(Meaning::Children { names, .. }) => names == Set::<Seq<char>>::empty(),
        _ => true,
    }
}

/// What the removal of a directory makes of the service, and its result.
pub open spec fn rmdir_end(kv: Kv, parent: i64, name: Seq<char>) -> (Kv, Result<(), ErrorView>) {
    match kv.get(KeyView::Forward(parent, name)) {
        Some(Meaning::Forward { inode, is_file, .. }) => if is_file {
            (kv, Err(ErrorView::NotDirectory(inode)))
        } else if !is_empty_dir(kv, inode) {
            (kv, Err(ErrorView::DirectoryNotEmpty(inode)))
        } else {
            (
                Kv {
                    map: name_dropped(kv, parent, name).remove(KeyView::Children(inode)).remove(
                        KeyView::Forward(parent, name),
                    ).remove(KeyView::Entry(inode)),
                    revision: kv.revision + 1,
                },
                Ok(()),
            )
        },
        _ => (kv, Err(ErrorView::NotFound(parent))),
    }
}

/// A list without names stands for the empty set, and no other does.
proof fn lemma_name_set_empty(names: Seq<String>)
    ensures
        name_set(names) == Set::<Seq<char>>::empty() <==> names.len() == 0,
{
    if names.len() == 0 {
        assert(name_set(names) =~= Set::empty());
    } else {
        assert(name_set(names).contains(names[0]@));
    }
}

/// The transaction of a removal of a directory makes of the service what `rmdir_end` says, where
/// the name and the names in the parent are what the removal takes them for, and the directory is
/// empty.
pub proof fn lemma_rmdir_commit(
    kv: Kv,
    s: Rmdir,
    ino: i64,
    names: Option<ReadNames>,
)
    requires
        stands_for(kv, s.key(), ino, false),
        is_empty_dir(kv, ino),
        names_say(kv, s.parent.0, names),
    ensures
        rmdir_end(kv, s.parent.0, s.name@) == (
            kv.commit(s.writes(ino, names)),
            Ok::<(), ErrorView>(()),
        ),
{
    let rev = kv.revision + 1;
    let dw = drop_writes(s.parent.0, s.name@, names);
    lemma_drop_writes(kv, s.parent.0, s.name@, names);
    let own = WriteView::Delete(KeyView::Children(ino));
    let del = WriteView::Delete(s.key());
    lemma_written_push(kv.map, dw, own, rev);
    lemma_written_push(kv.map, dw.push(own), del, rev);
    lemma_written_push(
        kv.map,
        dw.push(own).push(del),
        WriteView::Delete(KeyView::Entry(ino)),
        rev,
    );
}

/// A removal of a directory that runs to its end does what `rmdir_end` says.
pub proof fn law_rmdir_runs(
    kv: Kv,
    parent: i64,
    name: String,
    trace: Seq<(Reply, Kv)>,
    end: (Kv, Result<(), ErrorView>),
)
    requires
        sane(kv),
        runs::<Rmdir>(
            Rmdir { parent: Inode(parent), name, retry: 0, phase: RmdirPhase::Source },
            kv,
            trace,
            end,
        ),
    ensures
        end == rmdir_end(kv, parent, name@),
{
    reveal_with_fuel(runs, 5);
    let s = Rmdir { parent: Inode(parent), name, retry: 0, phase: RmdirPhase::Source };
    let k = s.key();
    assert(kv.map.dom().contains(k) ==> kv.map[k].0 is Forward);
    let names_key = KeyView::Children(parent);
    assert(kv.map.dom().contains(names_key) ==> kv.map[names_key].0 is Children);
    match trace[0].0 {
        Reply::Value(Some((Value::Forward(e), revision))) => {
            if !e.is_file {
                let own_key = KeyView::Children(e.inode);
                assert(kv.map.dom().contains(own_key) ==> kv.map[own_key].0 is Children);
                let own = match trace[1].0 {
                    Reply::Value(Some((Value::Children(c), at))) => {
                        lemma_name_set_empty(c.children@);
                        Some(at)
                    },
                    _ => None,
                };
                if is_empty_dir(kv, e.inode) {
                    let names = match trace[2].0 {
                        Reply::Value(Some((Value::Children(c), at))) => Some((c, at)),
                        _ => None,
                    };
                    lemma_rmdir_commit(kv, s, e.inode, names);
                    let s2 = s.at(RmdirPhase::Commit { ino: e.inode, revision, own, names });
                    let cs = Rmdir::asks(s2)->checks;
                    assert(kv.holds(cs[0]) && kv.holds(cs[1]) && kv.holds(cs[2]));
                    assert(kv.all_hold(cs));
                    assert(s2.writes(e.inode, names) == s.writes(e.inode, names));
                }
            }
        },
        _ => {},
    }
}

/// The names in a directory.
pub open spec fn names_in(kv: Kv, ino: i64) -> Set<Seq<char>> {
    match kv.get(KeyView::Children(ino)) {
        Some(Meaning::Children { names, .. }) => names,
        _ => Set::empty(),
    }
}

/// Whether an entry says what its name in the directory stands for.
pub open spec fn is_entry(kv: Kv, ino: i64, e: DirEntry) -> bool {
    match kv.get(KeyView::Forward(ino, e.name@)) {
        Some(Meaning::Forward { inode, is_file, .. }) => e.ino == inode && e.kind == (if is_file {
            FileType::File
        } else {
            FileType::Dir
        }),
        _ => false,
    }
}

/// Whether a list has an entry for every one of the first `at` names that stands for something.
pub open spec fn covers(kv: Kv, ino: i64, names: Seq<String>, at: int, found: Seq<DirEntry>) -> bool {
    forall|i: int|
        0 <= i < at && kv.get(KeyView::Forward(ino, (#[trigger] names[i])@)) is Some ==> exists|j: int|
            0 <= j < found.len() && #[trigger] found[j].name == names[i]
}

/// Whether every entry of a list is one of the directory, under one of the names.
pub open spec fn entries_are_right(
    kv: Kv,
    ino: i64,
    names: Seq<String>,
    found: Seq<DirEntry>,
) -> bool {
    forall|j: int|
        0 <= j < found.len() ==> is_entry(kv, ino, #[trigger] found[j]) && names.contains(
            found[j].name,
        )
}

/// Whether no name is listed twice.
pub open spec fn listed_once(entries: Seq<DirEntry>) -> bool {
    forall|i: int, j: int|
        0 <= i < j < entries.len() ==> (#[trigger] entries[i]).name@ != (#[trigger] entries[j]).name@
}

/// Whether every entry of a list stands under one of the first `at` names.
pub open spec fn from_first(names: Seq<String>, at: int, found: Seq<DirEntry>) -> bool {
    forall|j: int|
        0 <= j < found.len() ==> exists|i: int|
            0 <= i < at && #[trigger] names[i] == (#[trigger] found[j]).name
}

/// A listing that has come to the entries ends with all of them.
proof fn lemma_listing_runs(
    kv: Kv,
    ino: i64,
    names: Seq<String>,
    at: int,
    found: Seq<DirEntry>,
    trace: Seq<(Reply, Kv)>,
    end: (Kv, Result<Seq<DirEntry>, ErrorView>),
)
    requires
        sane(kv),
        0 <= at < names.len(),
        runs::<Readdir>(ReaddirState::Entries { ino, names, at, found }, kv, trace, end),
        distinct(names),
        covers(kv, ino, names, at, found),
        entries_are_right(kv, ino, names, found),
        from_first(names, at, found),
        listed_once(found),
    ensures
        end.0 == kv,
        end.1 matches Ok(entries) && covers(kv, ino, names, names.len() as int, entries)
            && entries_are_right(kv, ino, names, entries) && listed_once(entries),
    decreases trace.len(),
{
    let s = ReaddirState::Entries { ino, names, at, found };
    let k = KeyView::Forward(ino, names[at]@);
    assert(kv.map.dom().contains(k) ==> kv.map[k].0 is Forward);
    let more = match trace[0].0 {
        Reply::Value(Some((Value::Forward(e), _))) => found.push(
            crate::meta::etcd::store::entry_of(names[at], e),
        ),
        _ => found,
    };
    assert(covers(kv, ino, names, at + 1, more)) by {
        assert forall|i: int|
            0 <= i < at + 1 && kv.get(
                KeyView::Forward(ino, (#[trigger] names[i])@),
            ) is Some implies exists|j: int|
            0 <= j < more.len() && #[trigger] more[j].name == names[i] by {
            if i == at {
                assert(more[more.len() - 1].name == names[i]);
            } else {
                let j = choose|j: int| 0 <= j < found.len() && #[trigger] found[j].name == names[i];
                assert(more[j].name == names[i]);
            }
        }
    }
    assert(entries_are_right(kv, ino, names, more));
    assert(listed_once(more)) by {
        assert forall|j: int| 0 <= j < found.len() implies (#[trigger] found[j]).name@
            != names[at]@ by {
            let i = choose|i: int| 0 <= i < at && #[trigger] names[i] == found[j].name;
            assert(names[i]@ != names[at]@);
        }
    }
    assert(from_first(names, at + 1, more)) by {
        assert forall|j: int| 0 <= j < more.len() implies exists|i: int|
            0 <= i < at + 1 && #[trigger] names[i] == (#[trigger] more[j]).name by {
            if j < found.len() {
                let i = choose|i: int| 0 <= i < at && #[trigger] names[i] == found[j].name;
                assert(names[i] == more[j].name);
            } else {
                assert(names[at] == more[j].name);
            }
        }
    }
    if at + 1 < names.len() {
        lemma_listing_runs(kv, ino, names, at + 1, more, trace.drop_first(), end);
    }
}

/// A listing that runs to its end changes nothing. It holds one entry for each
/// name of the directory that stands for something, and no other entries.
pub proof fn law_readdir_runs(
    kv: Kv,
    ino: i64,
    trace: Seq<(Reply, Kv)>,
    end: (Kv, Result<Seq<DirEntry>, ErrorView>),
)
    requires
        sane(kv),
        runs::<Readdir>(ReaddirState::Names { ino }, kv, trace, end),
    ensures
        end.0 == kv,
        end.1 is Ok,
        listed_once(end.1->Ok_0),
        forall|j: int|
            0 <= j < end.1->Ok_0.len() ==> is_entry(kv, ino, #[trigger] end.1->Ok_0[j]) && names_in(
                kv,
                ino,
            ).contains(end.1->Ok_0[j].name@),
        forall|n: Seq<char>| #[trigger]
            names_in(kv, ino).contains(n) && kv.get(KeyView::Forward(ino, n)) is Some ==> exists|j: int|
                0 <= j < end.1->Ok_0.len() && #[trigger] end.1->Ok_0[j].name@ == n,
{
    let k = KeyView::Children(ino);
    assert(kv.map.dom().contains(k) ==> kv.map[k].0 is Children);
    match trace[0].0 {
        Reply::Value(Some((Value::Children(c), _))) => {
            let names = c.children@;
            if names.len() > 0 {
                lemma_listing_runs(kv, ino, names, 0, Seq::empty(), trace.drop_first(), end);
                let entries = end.1->Ok_0;
                assert forall|j: int| 0 <= j < entries.len() implies names_in(kv, ino).contains(
                    #[trigger] entries[j].name@,
                ) by {
                    let i = choose|i: int| 0 <= i < names.len() && names[i] == entries[j].name;
                    assert(names[i]@ == entries[j].name@);
                }
                assert forall|n: Seq<char>| #[trigger]
                    names_in(kv, ino).contains(n) && kv.get(
                        KeyView::Forward(ino, n),
                    ) is Some implies exists|j: int|
                    0 <= j < entries.len() && #[trigger] entries[j].name@ == n by {
                    let i = choose|i: int| 0 <= i < names.len() && #[trigger] names[i]@ == n;
                    let j = choose|j: int|
                        0 <= j < entries.len() && #[trigger] entries[j].name == names[i];
                    assert(entries[j].name@ == n);
                }
            } else {
                lemma_name_set_empty(names);
            }
        },
        _ => {},
    }
}

/// Every name that stands for something is among the names of its directory.
pub open spec fn listed(kv: Kv) -> bool {
    forall|p: i64, n: Seq<char>| #[trigger]
        kv.map.dom().contains(KeyView::Forward(p, n)) ==> kv.map.dom().contains(
            KeyView::Children(p),
        ) && names_in(kv, p).contains(n)
}

/// Every name of a directory that a look-up finds is in the listing, and stays so: no
/// creation, update, move or removal breaks it.
pub proof fn law_operations_keep_names_listed(
    kv: Kv,
    params: CreateParams,
    now: i64,
    ino: i64,
    mask: SetAttrMask,
    parent: i64,
    name: Seq<char>,
    to: i64,
    as_name: Seq<char>,
)
    requires
        sane(kv),
        listed(kv),
        !kv.map.dom().contains(KeyView::Children(ino)),
    ensures
        ({
            let kv2 = create_end(kv, params, now, ino).0;
            sane(kv2) && listed(kv2)
        }),
        ({
            let kv2 = setattr_end(kv, parent, mask, now).0;
            sane(kv2) && listed(kv2)
        }),
        ({
            let kv2 = rename_end(kv, parent, name, to, as_name).0;
            sane(kv2) && listed(kv2)
        }),
        ({
            let kv2 = unlink_end(kv, parent, name).0;
            sane(kv2) && listed(kv2)
        }),
        ({
            let kv2 = rmdir_end(kv, parent, name).0;
            sane(kv2) && listed(kv2)
        }),
{
    lemma_create_keeps_listed(kv, params, now, ino);
    lemma_setattr_keeps_listed(kv, parent, mask, now);
    lemma_rename_keeps_listed(kv, parent, name, to, as_name);
    lemma_unlink_keeps_listed(kv, parent, name);
    lemma_rmdir_keeps_listed(kv, parent, name);
}

/// A creation keeps names listed.
pub proof fn lemma_create_keeps_listed(kv: Kv, params: CreateParams, now: i64, ino: i64)
    requires
        sane(kv),
        listed(kv),
        !kv.map.dom().contains(KeyView::Children(ino)),
    ensures
        sane(create_end(kv, params, now, ino).0),
        listed(create_end(kv, params, now, ino).0),
{
    let kv2 = create_end(kv, params, now, ino).0;
    assert forall|p: i64, n: Seq<char>| #[trigger]
        kv2.map.dom().contains(KeyView::Forward(p, n)) implies kv2.map.dom().contains(
        KeyView::Children(p),
    ) && names_in(kv2, p).contains(n) by {
        if kv.map.dom().contains(KeyView::Forward(p, n)) {
            assert(names_in(kv, p).contains(n));
        }
    }
}

/// An update keeps names listed.
pub proof fn lemma_setattr_keeps_listed(kv: Kv, ino: i64, mask: SetAttrMask, now: i64)
    requires
        sane(kv),
        listed(kv),
    ensures
        sane(setattr_end(kv, ino, mask, now).0),
        listed(setattr_end(kv, ino, mask, now).0),
{
    let kv2 = setattr_end(kv, ino, mask, now).0;
    assert forall|p: i64, n: Seq<char>| #[trigger]
        kv2.map.dom().contains(KeyView::Forward(p, n)) implies kv2.map.dom().contains(
        KeyView::Children(p),
    ) && names_in(kv2, p).contains(n) by {
        assert(kv.map.dom().contains(KeyView::Forward(p, n)));
    }
}

/// A move keeps names listed.
pub proof fn lemma_rename_keeps_listed(
    kv: Kv,
    parent: i64,
    name: Seq<char>,
    to: i64,
    as_name: Seq<char>,
)
    requires
        sane(kv),
        listed(kv),
    ensures
        sane(rename_end(kv, parent, name, to, as_name).0),
        listed(rename_end(kv, parent, name, to, as_name).0),
{
    let kv2 = rename_end(kv, parent, name, to, as_name).0;
    assert forall|p: i64, n: Seq<char>| #[trigger]
        kv2.map.dom().contains(KeyView::Forward(p, n)) implies kv2.map.dom().contains(
        KeyView::Children(p),
    ) && names_in(kv2, p).contains(n) by {
        if kv.map.dom().contains(KeyView::Forward(p, n)) {
            assert(names_in(kv, p).contains(n));
        }
    }
}

/// The removal of a file keeps names listed.
pub proof fn lemma_unlink_keeps_listed(kv: Kv, parent: i64, name: Seq<char>)
    requires
        sane(kv),
        listed(kv),
    ensures
        sane(unlink_end(kv, parent, name).0),
        listed(unlink_end(kv, parent, name).0),
{
    let kv2 = unlink_end(kv, parent, name).0;
    assert forall|p: i64, n: Seq<char>| #[trigger]
        kv2.map.dom().contains(KeyView::Forward(p, n)) implies kv2.map.dom().contains(
        KeyView::Children(p),
    ) && names_in(kv2, p).contains(n) by {
        assert(kv.map.dom().contains(KeyView::Forward(p, n)));
    }
}

/// The removal of a directory keeps names listed.
pub proof fn lemma_rmdir_keeps_listed(kv: Kv, parent: i64, name: Seq<char>)
    requires
        sane(kv),
        listed(kv),
    ensures
        sane(rmdir_end(kv, parent, name).0),
        listed(rmdir_end(kv, parent, name).0),
{
    let kv2 = rmdir_end(kv, parent, name).0;
    assert forall|p: i64, n: Seq<char>| #[trigger]
        kv2.map.dom().contains(KeyView::Forward(p, n)) implies kv2.map.dom().contains(
        KeyView::Children(p),
    ) && names_in(kv2, p).contains(n) by {
        assert(kv.map.dom().contains(KeyView::Forward(p, n)));
    }
}

/// A refused operation changes nothing.
pub proof fn law_refusal_changes_nothing(
    kv: Kv,
    params: CreateParams,
    now: i64,
    ino: i64,
    mask: SetAttrMask,
    parent: i64,
    name: Seq<char>,
    to: i64,
    as_name: Seq<char>,
)
    ensures
        create_end(kv, params, now, ino).1 is Err ==> create_end(kv, params, now, ino).0 == kv,
        setattr_end(kv, parent, mask, now).1 is Err ==> setattr_end(kv, parent, mask, now).0 == kv,
        rename_end(kv, parent, name, to, as_name).1 is Err ==> rename_end(
            kv,
            parent,
            name,
            to,
            as_name,
        ).0 == kv,
        unlink_end(kv, parent, name).1 is Err ==> unlink_end(kv, parent, name).0 == kv,
        rmdir_end(kv, parent, name).1 is Err ==> rmdir_end(kv, parent, name).0 == kv,
{
}

/// A created file or directory is found under its name, has the attributes that
/// the creation gave back and is among the names of its parent; a second
/// creation under that name is refused; a new directory is empty.
pub proof fn law_created_is_found(kv: Kv, params: CreateParams, now: i64, ino: i64, again: i64)
    requires
        create_end(kv, params, now, ino).1 is Ok,
        params.parent.0 != ino,
    ensures
        ({
            let kv2 = create_end(kv, params, now, ino).0;
            let parent = params.parent.0;
            let name = params.name@;
            &&& lookup_end(kv2, parent, name) == Ok::<Inode, ErrorView>(Inode(ino))
            &&& create_end(kv, params, now, ino).1 == Ok::<(Inode, FileAttr), ErrorView>(
                (Inode(ino), getattr_end(kv2, ino)->Ok_0),
            )
            &&& getattr_end(kv2, ino) is Ok
            &&& names_in(kv2, parent) == names_in(kv, parent).insert(name)
            &&& params.kind == FileType::Dir ==> names_in(kv2, ino) == Set::<Seq<char>>::empty()
            &&& create_end(kv2, params, now, again) == (
                kv2,
                Err::<(Inode, FileAttr), ErrorView>(ErrorView::AlreadyExists { parent, name }),
            )
        }),
{
}

/// A creation touches the new name, the new inode and the names of the parent alone.
pub proof fn law_create_touches_only_its_keys(
    kv: Kv,
    params: CreateParams,
    now: i64,
    ino: i64,
    k: KeyView,
)
    requires
        k != KeyView::Entry(ino),
        k != KeyView::Forward(params.parent.0, params.name@),
        k != KeyView::Children(params.parent.0),
        k != KeyView::Children(ino),
    ensures
        create_end(kv, params, now, ino).0.get(k) == kv.get(k),
{
}

/// What the keys hold is the same in two states.
pub open spec fn same_content(a: Kv, b: Kv) -> bool {
    forall|k: KeyView| #[trigger] a.get(k) == b.get(k)
}

/// Removing a file that was just created undoes the creation.
pub proof fn law_unlink_undoes_create(kv: Kv, params: CreateParams, now: i64, ino: i64)
    requires
        params.kind == FileType::File,
        create_end(kv, params, now, ino).1 is Ok,
        !kv.map.dom().contains(KeyView::Entry(ino)),
        !names_in(kv, params.parent.0).contains(params.name@),
    ensures
        ({
            let made = create_end(kv, params, now, ino).0;
            let undone = unlink_end(made, params.parent.0, params.name@);
            undone.1 is Ok && same_content(undone.0, kv)
        }),
{
    let made = create_end(kv, params, now, ino).0;
    let undone = unlink_end(made, params.parent.0, params.name@).0;
    let parent = params.parent.0;
    let name = params.name@;
    assert(names_in(kv, parent).insert(name).remove(name) =~= names_in(kv, parent));
    assert forall|k: KeyView| #[trigger] undone.get(k) == kv.get(k) by {
        if k == KeyView::Children(parent) {
        } else if k == KeyView::Forward(parent, name) {
        } else if k == KeyView::Entry(ino) {
        }
    }
}

/// Removing a directory that was just created undoes the creation.
pub proof fn law_rmdir_undoes_create(kv: Kv, params: CreateParams, now: i64, ino: i64)
    requires
        params.kind == FileType::Dir,
        create_end(kv, params, now, ino).1 is Ok,
        params.parent.0 != ino,
        !kv.map.dom().contains(KeyView::Entry(ino)),
        !kv.map.dom().contains(KeyView::Children(ino)),
        !names_in(kv, params.parent.0).contains(params.name@),
    ensures
        ({
            let made = create_end(kv, params, now, ino).0;
            let undone = rmdir_end(made, params.parent.0, params.name@);
            undone.1 is Ok && same_content(undone.0, kv)
        }),
{
    let made = create_end(kv, params, now, ino).0;
    let undone = rmdir_end(made, params.parent.0, params.name@).0;
    let parent = params.parent.0;
    let name = params.name@;
    assert(names_in(kv, parent).insert(name).remove(name) =~= names_in(kv, parent));
    assert forall|k: KeyView| #[trigger] undone.get(k) == kv.get(k) by {
        if k == KeyView::Children(parent) {
        } else if k == KeyView::Forward(parent, name) {
        } else if k == KeyView::Entry(ino) {
        } else if k == KeyView::Children(ino) {
        }
    }
}

/// After a removal the name stands for nothing, and the inode has no attributes.
pub proof fn law_removed_is_gone(kv: Kv, parent: i64, name: Seq<char>, ino: i64)
    requires
        lookup_end(kv, parent, name) == Ok::<Inode, ErrorView>(Inode(ino)),
    ensures
        unlink_end(kv, parent, name).1 is Ok ==> {
            let kv2 = unlink_end(kv, parent, name).0;
            &&& lookup_end(kv2, parent, name) == Err::<Inode, ErrorView>(ErrorView::NotFound(parent))
            &&& getattr_end(kv2, ino) == Err::<FileAttr, ErrorView>(ErrorView::NotFound(ino))
            &&& !names_in(kv2, parent).contains(name)
        },
        rmdir_end(kv, parent, name).1 is Ok ==> {
            let kv2 = rmdir_end(kv, parent, name).0;
            &&& lookup_end(kv2, parent, name) == Err::<Inode, ErrorView>(ErrorView::NotFound(parent))
            &&& getattr_end(kv2, ino) == Err::<FileAttr, ErrorView>(ErrorView::NotFound(ino))
            &&& !names_in(kv2, parent).contains(name)
        },
{
}

/// A directory with names in it is not removed.
pub proof fn law_full_directory_stays(kv: Kv, parent: i64, name: Seq<char>, inner: Seq<char>)
    requires
        kv.get(KeyView::Forward(parent, name)) matches Some(Meaning::Forward { inode, is_file, .. })
            && !is_file && names_in(kv, inode).contains(inner),
    ensures
        rmdir_end(kv, parent, name).0 == kv,
        rmdir_end(kv, parent, name).1 matches Err(ErrorView::DirectoryNotEmpty(ino)) && lookup_end(
            kv,
            parent,
            name,
        ) == Ok::<Inode, ErrorView>(Inode(ino)),
{
}

/// After a move the new name stands for what the old one stood for; the old
/// name stands for nothing, unless it is the new one; attributes stay.
pub proof fn law_rename_moves(
    kv: Kv,
    parent: i64,
    name: Seq<char>,
    to: i64,
    as_name: Seq<char>,
    ino: i64,
)
    requires
        rename_end(kv, parent, name, to, as_name).1 is Ok,
    ensures
        ({
            let kv2 = rename_end(kv, parent, name, to, as_name).0;
            &&& lookup_end(kv2, to, as_name) == lookup_end(kv, parent, name)
            &&& (parent, name) != (to, as_name) ==> lookup_end(kv2, parent, name) == Err::<
                Inode,
                ErrorView,
            >(ErrorView::NotFound(parent))
            &&& names_in(kv2, to).contains(as_name)
            &&& (parent, name) != (to, as_name) ==> !names_in(kv2, parent).contains(name)
            &&& kv2.get(KeyView::Forward(to, as_name)) matches Some(Meaning::Forward { parent: p, name: n, .. })
                && p == to && n == as_name
            &&& getattr_end(kv2, ino) == getattr_end(kv, ino)
        }),
{
}

/// An update sets what its mask names, with the directory bit kept on
/// directories, and leaves the other attributes as they were.
pub proof fn law_setattr_sets_what_the_mask_names(
    kv: Kv,
    ino: i64,
    mask: SetAttrMask,
    now: i64,
)
    requires
        getattr_end(kv, ino) is Ok,
    ensures
        ({
            let before = getattr_end(kv, ino)->Ok_0;
            let kv2 = setattr_end(kv, ino, mask, now).0;
            let now_attr = getattr_end(kv2, ino)->Ok_0;
            &&& getattr_end(kv2, ino) is Ok
            &&& ino != 1 ==> setattr_end(kv, ino, mask, now).1 == getattr_end(kv2, ino)
            &&& now_attr.kind == before.kind
            &&& now_attr.ctime == before.ctime
            &&& now_attr.nlink == before.nlink
            &&& now_attr.version == before.version
            &&& now_attr.uid == (match mask.uid {
                Some(uid) => uid,
                None => before.uid,
            })
            &&& now_attr.gid == (match mask.gid {
                Some(gid) => gid,
                None => before.gid,
            })
            &&& now_attr.atime == (match mask.atime {
                Some(atime) => atime,
                None => before.atime,
            })
            &&& now_attr.mtime == (match mask.mtime {
                Some(mtime) => mtime,
                None => before.mtime,
            })
            &&& now_attr.mode == (match mask.mode {
                Some(mode) => crate::meta::etcd::store::kept_mode(
                    before.kind == FileType::File,
                    mode,
                ),
                None => before.mode,
            })
            &&& before.kind == FileType::Dir ==> now_attr.size == 4096
            &&& before.kind == FileType::File ==> now_attr.size == (match mask.size {
                Some(size) => size,
                None => before.size,
            })
        }),
{
    match mask.size {
        Some(size) => {
            assert((size as i64) as u64 == size) by (bit_vector);
        },
        None => {},
    }
}

} // verus!
