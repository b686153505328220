//! What the reads on the key-value service tell as a whole.

use crate::meta::entities::{ContentMetaModel, EntryType, EtcdEntryInfo};
use crate::meta::etcd::atomic_laws::{
    create_node_end, is_parent, names_of, place_of, remove_node_end, rename_node_end, target_of,
    well_kept,
};
use crate::meta::etcd::atomic_reads::{
    access_meta, contents_end, dir_attr, file_attr, file_meta, find_content, path_from,
    reading, root_access_meta, ContentMeta, ContentState, GetName, GetParent, GetPath, GetPathState,
    LookupPath, LookupPathState, SetFileSize, Stat,
};
use crate::meta::etcd::kv::{
    answers, distinct, name_set, runs, KeyView, Kv, Meaning, Operation, Reply, Value,
};
use crate::meta::store::{ErrorView, FileAttr, FileType, StepView};
use crate::text::{components, not_empty_parts, split, texts};
use crate::vfs::path::{is_name, lemma_one_name_more};
use vstd::prelude::*;

verus! {

/// The attributes of an inode: those of a file by its metadata, those of the root as they are
/// fixed, and those of another directory by its metadata.
pub open spec fn stat_of(kv: Kv, ino: i64, now: i64) -> Option<FileAttr> {
    let info = match kv.get(KeyView::Entry(ino)) {
        Some(Meaning::Placed { info, .. }) => Some(info),
        _ => None,
    };
    if info is Some && info->Some_0.is_file {
        Some(file_attr(file_meta(ino, info->Some_0)))
    } else if ino == 1 {
        Some(dir_attr(root_access_meta(now)))
    } else if info is Some {
        Some(dir_attr(access_meta(ino, info->Some_0)))
    } else {
        None
    }
}

/// A reading of attributes gives those of the inode, and changes nothing.
pub proof fn law_node_stat_runs(
    kv: Kv,
    ino: i64,
    now: i64,
    trace: Seq<(Reply, Kv)>,
    end: (Kv, Result<Option<FileAttr>, ErrorView>),
)
    requires
        well_kept(kv),
        runs::<Stat>(Stat { ino, now, as_dir: false }, kv, trace, end),
    ensures
        end == (kv, Ok::<Option<FileAttr>, ErrorView>(stat_of(kv, ino, now))),
{
    reveal_with_fuel(runs, 3);
    let k = KeyView::Entry(ino);
    assert(kv.map.dom().contains(k) ==> kv.map[k].0 is Placed);
}

/// What an update of a size makes of the service, and its result: a file gets the size and the
/// time, and nothing else is changed.
pub open spec fn set_file_size_end(kv: Kv, ino: i64, size: u64, now: i64) -> (
    Kv,
    Result<(), ErrorView>,
) {
    match kv.get(KeyView::Entry(ino)) {
        Some(Meaning::Placed { info, parent, name }) => if info.is_file {
            (
                kv.put(
                    KeyView::Entry(ino),
                    Meaning::Placed {
                        info: EtcdEntryInfo {
                            size: Some(size as i64),
                            modify_time: now,
                            ..info
                        },
                        parent,
                        name,
                    },
                ),
                Ok(()),
            )
        } else {
            (kv, Err(ErrorView::Internal("Cannot set size for directory"@)))
        },
        _ => (kv, Err(ErrorView::NotFound(ino))),
    }
}

/// An update of a size that nobody disturbs does what `set_file_size_end` says.
pub proof fn law_set_file_size_runs(
    kv: Kv,
    ino: i64,
    size: u64,
    now: i64,
    trace: Seq<(Reply, Kv)>,
    end: (Kv, Result<(), ErrorView>),
)
    requires
        well_kept(kv),
        runs::<SetFileSize>(SetFileSize { ino, size, now, entry: None }, kv, trace, end),
    ensures
        end == set_file_size_end(kv, ino, size, now),
{
    reveal_with_fuel(runs, 3);
    let k = KeyView::Entry(ino);
    assert(kv.map.dom().contains(k) ==> kv.map[k].0 is Placed);
}

/// A reading of a parent gives the one that the metadata name.
pub proof fn law_get_parent_runs(
    kv: Kv,
    ino: i64,
    trace: Seq<(Reply, Kv)>,
    end: (Kv, Result<Option<i64>, ErrorView>),
)
    requires
        well_kept(kv),
        runs::<GetParent>(GetParent { ino }, kv, trace, end),
    ensures
        end == (kv, Ok::<Option<i64>, ErrorView>(
            match place_of(kv, ino) {
                Some((parent, _)) => Some(parent),
                None => None,
            },
        )),
{
    let k = KeyView::Entry(ino);
    assert(kv.map.dom().contains(k) ==> kv.map[k].0 is Placed);
}

/// A reading of a name gives the one that the metadata hold.
pub proof fn law_get_name_runs(
    kv: Kv,
    ino: i64,
    trace: Seq<(Reply, Kv)>,
    end: (Kv, Result<Option<Seq<char>>, ErrorView>),
)
    requires
        well_kept(kv),
        runs::<GetName>(GetName { ino }, kv, trace, end),
    ensures
        end == (kv, Ok::<Option<Seq<char>>, ErrorView>(
            match place_of(kv, ino) {
                Some((_, name)) => Some(name),
                None => None,
            },
        )),
{
    let k = KeyView::Entry(ino);
    assert(kv.map.dom().contains(k) ==> kv.map[k].0 is Placed);
}

/// What a name that a directory lists stands for.
pub open spec fn child(kv: Kv, dir: i64, name: Seq<char>) -> Option<(i64, bool)> {
    if names_of(kv, dir).contains(name) {
        target_of(kv, dir, name)
    } else {
        None
    }
}

/// Whether rows are exactly those of the names that a directory lists and that stand for
/// something, each once.
pub open spec fn tells_contents(kv: Kv, dir: i64, found: Option<Seq<ContentMetaModel>>) -> bool {
    match found {
        None => forall|name: Seq<char>| (#[trigger] child(kv, dir, name)) is None,
        Some(list) => {
            &&& list.len() > 0
            &&& forall|i: int|
                0 <= i < list.len() ==> (#[trigger] list[i]).parent_inode == dir && child(
                    kv,
                    dir,
                    list[i].entry_name@,
                ) == Some((list[i].inode, list[i].entry_type == EntryType::File))
            &&& forall|i: int, j: int|
                0 <= i < j < list.len() ==> (#[trigger] list[i]).entry_name@ != (
                #[trigger] list[j]).entry_name@
            &&& forall|name: Seq<char>|
                (#[trigger] child(kv, dir, name)) is Some ==> exists|i: int|
                    0 <= i < list.len() && #[trigger] list[i].entry_name@ == name
        },
    }
}

/// The rows of the first names of a list that stand for something.
spec fn rows(kv: Kv, dir: i64, names: Seq<String>, n: int) -> Seq<ContentMetaModel>
    decreases n,
{
    if n <= 0 {
        Seq::empty()
    } else {
        let before = rows(kv, dir, names, n - 1);
        match target_of(kv, dir, names[n - 1]@) {
            Some((inode, is_file)) => before.push(
                ContentMetaModel {
                    inode,
                    parent_inode: dir,
                    entry_name: names[n - 1],
                    entry_type: if is_file {
                        EntryType::File
                    } else {
                        EntryType::Directory
                    },
                },
            ),
            None => before,
        }
    }
}

/// Whether a name is among the first names of a list.
spec fn among(names: Seq<String>, n: int, name: Seq<char>) -> bool {
    exists|k: int| 0 <= k < n && #[trigger] names[k]@ == name
}

/// Whether a name has a row.
spec fn has_row(list: Seq<ContentMetaModel>, name: Seq<char>) -> bool {
    exists|i: int| 0 <= i < list.len() && #[trigger] list[i].entry_name@ == name
}

/// Whether a row stands for a name and what it stands for.
spec fn row_fits(kv: Kv, dir: i64, c: ContentMetaModel) -> bool {
    c.parent_inode == dir && target_of(kv, dir, c.entry_name@) == Some(
        (c.inode, c.entry_type == EntryType::File),
    )
}

/// Whether no name has two rows.
spec fn rows_differ(list: Seq<ContentMetaModel>) -> bool {
    forall|i: int, j: int|
        0 <= i < j < list.len() ==> (#[trigger] list[i]).entry_name@ != (
        #[trigger] list[j]).entry_name@
}

/// Each row stands for a name of the list, and each name that stands for something has one.
proof fn lemma_rows(kv: Kv, dir: i64, names: Seq<String>, n: int)
    requires
        0 <= n <= names.len(),
        distinct(names),
    ensures
        ({
            let list = rows(kv, dir, names, n);
            &&& forall|i: int|
                0 <= i < list.len() ==> row_fits(kv, dir, #[trigger] list[i]) && among(
                    names,
                    n,
                    list[i].entry_name@,
                )
            &&& rows_differ(list)
            &&& forall|k: int|
                0 <= k < n && target_of(kv, dir, (#[trigger] names[k])@) is Some ==> has_row(
                    list,
                    names[k]@,
                )
        }),
    decreases n,
{
    if n > 0 {
        lemma_rows(kv, dir, names, n - 1);
        let before = rows(kv, dir, names, n - 1);
        let list = rows(kv, dir, names, n);
        assert forall|i: int| 0 <= i < list.len() implies row_fits(kv, dir, #[trigger] list[i])
            && among(names, n, list[i].entry_name@) by {
            if i < before.len() {
                assert(list[i] == before[i]);
                lemma_among_more(names, n - 1, before[i].entry_name@);
            } else {
                assert(names[n - 1]@ == list[i].entry_name@);
            }
        }
        assert(rows_differ(list)) by {
            assert forall|i: int, j: int| 0 <= i < j < list.len() implies (
            #[trigger] list[i]).entry_name@ != (#[trigger] list[j]).entry_name@ by {
                assert(list[i] == before[i]);
                if j < before.len() {
                    assert(list[j] == before[j]);
                } else {
                    assert(among(names, n - 1, before[i].entry_name@));
                    let k = choose|k: int|
                        0 <= k < n - 1 && #[trigger] names[k]@ == before[i].entry_name@;
                    assert(names[k]@ != names[n - 1]@);
                }
            }
        }
        assert forall|k: int|
            0 <= k < n && target_of(kv, dir, (#[trigger] names[k])@) is Some implies has_row(
            list,
            names[k]@,
        ) by {
            if k < n - 1 {
                assert(has_row(before, names[k]@));
                let i = choose|i: int|
                    0 <= i < before.len() && #[trigger] before[i].entry_name@ == names[k]@;
                assert(list[i].entry_name@ == names[k]@);
            } else {
                assert(list[list.len() - 1].entry_name@ == names[k]@);
            }
        }
    }
}

/// A name among the first names is among more of them.
proof fn lemma_among_more(names: Seq<String>, n: int, name: Seq<char>)
    requires
        among(names, n, name),
    ensures
        among(names, n + 1, name),
{
    let k = choose|k: int| 0 <= k < n && #[trigger] names[k]@ == name;
    assert(names[k]@ == name);
}

/// The rows of all names of a directory tell its contents.
proof fn lemma_all_rows(kv: Kv, dir: i64, names: Seq<String>)
    requires
        name_set(names) == names_of(kv, dir),
        distinct(names),
    ensures
        tells_contents(kv, dir, contents_end(rows(kv, dir, names, names.len() as int))),
{
    let n = names.len() as int;
    let list = rows(kv, dir, names, n);
    lemma_rows(kv, dir, names, n);
    assert forall|i: int| 0 <= i < list.len() implies (#[trigger] list[i]).parent_inode == dir
        && child(kv, dir, list[i].entry_name@) == Some(
        (list[i].inode, list[i].entry_type == EntryType::File),
    ) by {
        assert(row_fits(kv, dir, list[i]) && among(names, n, list[i].entry_name@));
        let k = choose|k: int| 0 <= k < n && #[trigger] names[k]@ == list[i].entry_name@;
        assert(name_set(names).contains(names[k]@));
    }
    assert forall|name: Seq<char>| (#[trigger] child(kv, dir, name)) is Some implies exists|i: int|
        0 <= i < list.len() && #[trigger] list[i].entry_name@ == name by {
        assert(name_set(names).contains(name));
        let k = choose|k: int| 0 <= k < names.len() && #[trigger] names[k]@ == name;
        assert(target_of(kv, dir, names[k]@) is Some);
        assert(has_row(list, names[k]@));
    }
}

/// A reading of entries from the middle on.
proof fn lemma_content(
    kv: Kv,
    dir: i64,
    names: Seq<String>,
    at: int,
    trace: Seq<(Reply, Kv)>,
    end: (Kv, Result<Option<Seq<ContentMetaModel>>, ErrorView>),
)
    requires
        well_kept(kv),
        0 <= at < names.len(),
        runs::<ContentMeta>(
            ContentState::Entries { parent: dir, names, at, found: rows(kv, dir, names, at) },
            kv,
            trace,
            end,
        ),
    ensures
        end == (kv, Ok::<Option<Seq<ContentMetaModel>>, ErrorView>(
            contents_end(rows(kv, dir, names, names.len() as int)),
        )),
    decreases names.len() - at,
{
    lemma_next_row(kv, dir, names, at, trace[0].0, trace[0].1);
    if at + 1 < names.len() {
        lemma_content(kv, dir, names, at + 1, trace.drop_first(), end);
    }
}

/// The reading of an entry adds the row of the name.
proof fn lemma_next_row(
    kv: Kv,
    dir: i64,
    names: Seq<String>,
    at: int,
    reply: Reply,
    kv2: Kv,
)
    requires
        well_kept(kv),
        0 <= at < names.len(),
        answers(
            kv,
            ContentMeta::asks(
                ContentState::Entries { parent: dir, names, at, found: rows(kv, dir, names, at) },
            ),
            reply,
            kv2,
        ),
    ensures
        kv2 == kv,
        ContentMeta::after(
            ContentState::Entries { parent: dir, names, at, found: rows(kv, dir, names, at) },
            reply,
        ) == reading(
            dir,
            names,
            at + 1,
            rows(kv, dir, names, at + 1),
        ),
{
    let k = KeyView::Forward(dir, names[at]@);
    assert(kv.map.dom().contains(k) ==> kv.map[k].0 is Forward);
}

/// A reading of entries gives exactly those that the directory lists and that stand for something.
pub proof fn law_content_meta_runs(
    kv: Kv,
    dir: i64,
    trace: Seq<(Reply, Kv)>,
    end: (Kv, Result<Option<Seq<ContentMetaModel>>, ErrorView>),
)
    requires
        well_kept(kv),
        runs::<ContentMeta>(ContentState::Names { parent: dir }, kv, trace, end),
    ensures
        end.0 == kv,
        end.1 matches Ok(found) && tells_contents(kv, dir, found),
{
    let k = KeyView::Children(dir);
    assert(kv.map.dom().contains(k) ==> kv.map[k].0 is Children);
    if let Reply::Value(Some((Value::Children(c), _))) = trace[0].0 {
        let names = c.children@;
        lemma_all_rows(kv, dir, names);
        if names.len() > 0 {
            lemma_content(kv, dir, names, 0, trace.drop_first(), end);
        }
    }
}

/// Where the names of a path lead from a directory: each but the last stands for a directory.
pub open spec fn reach(kv: Kv, dir: i64, parts: Seq<Seq<char>>) -> Option<(i64, FileType)>
    decreases parts.len(),
{
    if parts.len() == 0 {
        Some((dir, FileType::Dir))
    } else {
        match child(kv, dir, parts[0]) {
            None => None,
            Some((ino, true)) => if parts.len() == 1 {
                Some((ino, FileType::File))
            } else {
                None
            },
            Some((ino, false)) => reach(kv, ino, parts.skip(1)),
        }
    }
}

/// The first row of a name, where every name has at most one.
proof fn lemma_found(list: Seq<ContentMetaModel>, name: Seq<char>)
    ensures
        match find_content(list, name) {
            Some(c) => exists|i: int|
                0 <= i < list.len() && #[trigger] list[i] == c && c.entry_name@ == name,
            None => forall|i: int| 0 <= i < list.len() ==> (#[trigger] list[i]).entry_name@ != name,
        },
    decreases list.len(),
{
    if list.len() > 0 && list[0].entry_name@ != name {
        let rest = list.skip(1);
        lemma_found(rest, name);
        match find_content(rest, name) {
            Some(c) => {
                let i = choose|i: int|
                    0 <= i < rest.len() && #[trigger] rest[i] == c && c.entry_name@ == name;
                assert(list[i + 1] == c);
            },
            None => {
                assert forall|i: int| 0 <= i < list.len() implies (#[trigger] list[i]).entry_name@
                    != name by {
                    if i > 0 {
                        assert(rest[i - 1] == list[i]);
                    }
                }
            },
        }
    }
}

/// In the contents of a directory a name is found as what it stands for.
proof fn lemma_found_child(
    kv: Kv,
    dir: i64,
    contents: Option<Seq<ContentMetaModel>>,
    name: Seq<char>,
)
    requires
        tells_contents(kv, dir, contents),
    ensures
        child(kv, dir, name) == (match contents {
            Some(list) => match find_content(list, name) {
                Some(c) => Some((c.inode, c.entry_type == EntryType::File)),
                None => None,
            },
            None => None,
        }),
{
    if let Some(list) = contents {
        lemma_found(list, name);
        if child(kv, dir, name) is Some {
            let i = choose|i: int| 0 <= i < list.len() && #[trigger] list[i].entry_name@ == name;
            assert(list[i].entry_name@ == name);
        }
    }
}

/// The directory whose entries a walk is reading.
spec fn reading_dir(s: ContentState) -> i64 {
    match s {
        ContentState::Names { parent } => parent,
        ContentState::Entries { parent, .. } => parent,
    }
}

/// Whether the entries that a walk has read so far are those of the names before.
spec fn reading_fits(kv: Kv, s: ContentState) -> bool {
    s matches ContentState::Entries { parent, names, at, found } ==> {
        &&& 0 <= at < names.len()
        &&& found == rows(kv, parent, names, at)
        &&& name_set(names) == names_of(kv, parent)
        &&& distinct(names)
    }
}

/// A walk from any state on.
proof fn lemma_walk(
    kv: Kv,
    s: LookupPathState,
    trace: Seq<(Reply, Kv)>,
    end: (Kv, Result<Option<(i64, FileType)>, ErrorView>),
)
    requires
        well_kept(kv),
        0 <= s.at < s.parts.len(),
        reading_fits(kv, s.reading),
        runs::<LookupPath>(s, kv, trace, end),
    ensures
        end == (kv, Ok::<Option<(i64, FileType)>, ErrorView>(
            reach(kv, reading_dir(s.reading), texts(s.parts).skip(s.at)),
        )),
    decreases trace.len(),
{
    reveal_with_fuel(reach, 2);
    let dir = reading_dir(s.reading);
    let reply = trace[0].0;
    let left = texts(s.parts).skip(s.at);
    assert(left.len() > 0 && left[0] == s.parts[s.at]@);
    assert(left.skip(1) =~= texts(s.parts).skip(s.at + 1));
    match s.reading {
        ContentState::Names { parent } => {
            let k = KeyView::Children(dir);
            assert(kv.map.dom().contains(k) ==> kv.map[k].0 is Children);
            if let Reply::Value(Some((Value::Children(c), _))) = reply {
                lemma_all_rows(kv, dir, c.children@);
            }
        },
        ContentState::Entries { parent, names, at, found } => {
            lemma_next_row(kv, dir, names, at, reply, trace[0].1);
            if at + 1 == names.len() {
                lemma_all_rows(kv, dir, names);
            }
        },
    }
    match ContentMeta::after(s.reading, reply) {
        StepView::Next(reading) => {
            lemma_walk(kv, LookupPathState { reading, ..s }, trace.drop_first(), end);
        },
        StepView::Done(Ok(contents)) => {
            assert(tells_contents(kv, dir, contents));
            lemma_found_child(kv, dir, contents, s.parts[s.at]@);
            match LookupPath::after(s, reply) {
                StepView::Next(s2) => {
                    lemma_walk(kv, s2, trace.drop_first(), end);
                },
                StepView::Done(_) => {
                    if left.len() == 1 {
                        assert(left.skip(1) =~= Seq::empty());
                    }
                },
            }
        },
        StepView::Done(Err(_)) => {},
    }
}

/// A walk of a path gives where its names lead from the root, and changes nothing.
pub proof fn law_lookup_path_runs(
    kv: Kv,
    parts: Seq<String>,
    trace: Seq<(Reply, Kv)>,
    end: (Kv, Result<Option<(i64, FileType)>, ErrorView>),
)
    requires
        well_kept(kv),
        parts.len() > 0,
        runs::<LookupPath>(
            LookupPathState { parts, at: 0, reading: ContentState::Names { parent: 1 } },
            kv,
            trace,
            end,
        ),
    ensures
        end == (kv, Ok::<Option<(i64, FileType)>, ErrorView>(reach(kv, 1, texts(parts)))),
{
    let s = LookupPathState { parts, at: 0, reading: ContentState::Names { parent: 1 } };
    lemma_walk(kv, s, trace, end);
    assert(texts(parts).skip(0) =~= texts(parts));
}

/// Whether names, the innermost first, are those on the way from an inode up to the root, by the
/// places that the metadata name.
pub open spec fn climbs(kv: Kv, ino: i64, names: Seq<String>) -> bool
    decreases names.len(),
{
    &&& names.len() > 0
    &&& place_of(kv, ino) matches Some((parent, name)) && name == names[0]@ && (if parent == 1 {
        names.len() == 1
    } else {
        climbs(kv, parent, names.skip(1))
    })
}

/// A way up from any inode on.
proof fn lemma_climb(
    kv: Kv,
    s: GetPathState,
    trace: Seq<(Reply, Kv)>,
    end: (Kv, Result<Option<Seq<char>>, ErrorView>),
)
    requires
        well_kept(kv),
        runs::<GetPath>(s, kv, trace, end),
    ensures
        end.0 == kv,
        match end.1 {
            Ok(Some(path)) => exists|rest: Seq<String>|
                #[trigger] climbs(kv, s.current, rest) && path == path_from(s.names + rest),
            Ok(None) => forall|rest: Seq<String>| !#[trigger] climbs(kv, s.current, rest),
            Err(_) => false,
        },
    decreases trace.len(),
{
    let k = KeyView::Entry(s.current);
    assert(kv.map.dom().contains(k) ==> kv.map[k].0 is Placed);
    if let Reply::Value(Some((Value::Placed(e), _))) = trace[0].0 {
        let one = seq![e.entry_name];
        if e.parent_inode == 1 {
            assert(climbs(kv, s.current, one));
            assert(s.names + one =~= s.names.push(e.entry_name));
        } else {
            let s2 = GetPathState { current: e.parent_inode, names: s.names.push(e.entry_name) };
            lemma_climb(kv, s2, trace.drop_first(), end);
            match end.1 {
                Ok(Some(path)) => {
                    let rest = choose|rest: Seq<String>|
                        #[trigger] climbs(kv, s2.current, rest) && path == path_from(
                            s2.names + rest,
                        );
                    let all = one + rest;
                    assert(all.skip(1) =~= rest);
                    assert(climbs(kv, s.current, all));
                    assert(s.names + all =~= s2.names + rest);
                },
                Ok(None) => {
                    assert forall|rest: Seq<String>| !#[trigger] climbs(kv, s.current, rest) by {
                        assert(!climbs(kv, s2.current, rest.skip(1)));
                    }
                },
                Err(_) => {},
            }
        }
    }
}

/// A reading of a path gives the names on the way from the inode up to the root, and nothing where
/// the way does not lead there.
pub proof fn law_get_path_runs(
    kv: Kv,
    ino: i64,
    trace: Seq<(Reply, Kv)>,
    end: (Kv, Result<Option<Seq<char>>, ErrorView>),
)
    requires
        well_kept(kv),
        runs::<GetPath>(GetPathState { current: ino, names: Seq::empty() }, kv, trace, end),
    ensures
        end.0 == kv,
        match end.1 {
            Ok(Some(path)) => exists|names: Seq<String>|
                #[trigger] climbs(kv, ino, names) && path == path_from(names),
            Ok(None) => forall|names: Seq<String>| !#[trigger] climbs(kv, ino, names),
            Err(_) => false,
        },
{
    let none = Seq::<String>::empty();
    lemma_climb(kv, GetPathState { current: ino, names: none }, trace, end);
    if let Ok(Some(path)) = end.1 {
        let rest = choose|rest: Seq<String>|
            #[trigger] climbs(kv, ino, rest) && path == path_from(none + rest);
        assert(none + rest =~= rest);
    }
}

/// Whether every inode stands where its metadata say: the name is one, is listed in a directory,
/// and stands for the inode there.
pub open spec fn in_place(kv: Kv) -> bool {
    forall|ino: i64| #[trigger]
        kv.map.dom().contains(KeyView::Entry(ino)) ==> (kv.get(KeyView::Entry(ino)) matches Some(
            Meaning::Placed { info, parent, name },
        ) && is_parent(kv, parent) && is_name(name) && child(kv, parent, name) == Some(
            (ino, info.is_file),
        ))
}

/// The kind of an inode by its metadata.
pub open spec fn kind_of(kv: Kv, ino: i64) -> FileType {
    match kv.get(KeyView::Entry(ino)) {
        Some(Meaning::Placed { info, .. }) => if info.is_file {
            FileType::File
        } else {
            FileType::Dir
        },
        _ => FileType::Dir,
    }
}

/// One name more leads one step further.
proof fn lemma_reach_push(kv: Kv, dir: i64, parts: Seq<Seq<char>>, name: Seq<char>, at: i64)
    requires
        reach(kv, dir, parts) == Some((at, FileType::Dir)),
    ensures
        reach(kv, dir, parts.push(name)) == (match child(kv, at, name) {
            Some((ino, true)) => Some((ino, FileType::File)),
            Some((ino, false)) => Some((ino, FileType::Dir)),
            None => None,
        }),
    decreases parts.len(),
{
    reveal_with_fuel(reach, 2);
    let more = parts.push(name);
    if parts.len() == 0 {
        assert(more.skip(1) =~= Seq::empty());
    } else {
        assert(more[0] == parts[0]);
        assert(more.skip(1) =~= parts.skip(1).push(name));
        if let Some((ino, false)) = child(kv, dir, parts[0]) {
            lemma_reach_push(kv, ino, parts.skip(1), name, at);
        }
    }
}

/// The path that is read of an inode leads back to it: where every inode stands where its metadata
/// say, a walk of the path from the root ends at the inode.
pub proof fn law_path_leads_back(kv: Kv, ino: i64, names: Seq<String>)
    requires
        in_place(kv),
        climbs(kv, ino, names),
    ensures
        reach(kv, 1, components(path_from(names))) == Some((ino, kind_of(kv, ino))),
    decreases names.len(),
{
    let (parent, name) = place_of(kv, ino)->Some_0;
    let rest = names.skip(1);
    let up = path_from(rest);
    assert(kv.map.dom().contains(KeyView::Entry(ino)));
    reveal_strlit("/");
    assert(path_from(names) =~= up.push('/') + name);
    lemma_one_name_more(up, name);
    if parent == 1 {
        let nothing = Seq::<char>::empty();
        assert(rest =~= Seq::empty());
        assert(split(nothing, '/') =~= seq![nothing]);
        reveal_with_fuel(not_empty_parts, 2);
        assert(components(nothing) =~= Seq::empty());
    } else {
        law_path_leads_back(kv, parent, rest);
    }
    lemma_reach_push(kv, 1, components(up), name, parent);
}

/// A creation under a fresh number keeps every inode in place.
pub proof fn law_creation_keeps_in_place(
    kv: Kv,
    parent: i64,
    name: String,
    is_file: bool,
    now: i64,
    ino: i64,
)
    requires
        in_place(kv),
        is_name(name@),
        ino != parent,
        !kv.map.dom().contains(KeyView::Entry(ino)),
        names_of(kv, ino) == Set::<Seq<char>>::empty(),
    ensures
        in_place(create_node_end(kv, parent, name, is_file, now, ino).0),
{
}

/// A removal keeps every inode in place.
pub proof fn law_removal_keeps_in_place(kv: Kv, parent: i64, name: String, directory: bool)
    requires
        in_place(kv),
        target_of(kv, parent, name@) matches Some((ino, is_file)) ==> kind_of(kv, ino) == (
        if is_file {
            FileType::File
        } else {
            FileType::Dir
        }) && ino != 1,
    ensures
        in_place(remove_node_end(kv, parent, name, directory).0),
{
}

/// A move into a directory keeps every inode in place.
pub proof fn law_move_keeps_in_place(
    kv: Kv,
    old_parent: i64,
    old_name: String,
    new_parent: i64,
    new_name: String,
    now: i64,
)
    requires
        in_place(kv),
        is_name(new_name@),
        is_parent(kv, new_parent),
        target_of(kv, old_parent, old_name@) matches Some((ino, is_file)) ==> kind_of(kv, ino) == (
        if is_file {
            FileType::File
        } else {
            FileType::Dir
        }),
    ensures
        in_place(rename_node_end(kv, old_parent, old_name, new_parent, new_name, now).0),
{
}

} // verus!
