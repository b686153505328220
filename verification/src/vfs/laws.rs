//! What the operations by path do as a whole.

use crate::meta::store::{DirEntry, FileAttr, FileType};
use crate::meta::types::Inode;
use crate::text::components;
use crate::vfs::error::VfsErrorView;
use crate::vfs::fs::{
    readable, CreateFile, CreateFilePhase, Exists, ExistsPhase, List, ListPhase, ReadFile,
    ReadFilePhase, ReadInode, ReadInodePhase, RemoveDir, RemoveDirPhase, RenameFile,
    RenameFilePhase, Stat, StatPhase, Truncate, TruncatePhase, UnlinkFile, UnlinkFilePhase,
    WriteFile, WriteFilePhase, WriteInode, WriteInodePhase,
};
use crate::vfs::op::{FsOperation, FsReply};
use crate::vfs::path::{
    dir_and_name, is_name, law_dir_and_name, law_normal_form, law_path_of_names_reads_back,
    lemma_components_are_names, normal, path_of,
};
use crate::vfs::tree::{
    attr_fits, fs_runs, grown_along, lemma_one_way, lemma_walk_known, lemma_walk_within, lemma_with,
    lists, written, Tree,
};
use vstd::prelude::*;

verus! {

/// The directory of a path has the names of the path but the last.
pub proof fn lemma_dir(path: Seq<char>)
    requires
        components(path).len() > 0,
    ensures
        dir_and_name(normal(path)) == (
            path_of(components(path).drop_last()),
            components(path).last(),
        ),
        components(dir_and_name(normal(path)).0) == components(path).drop_last(),
        components(normal(path)) == components(path),
{
    let names = components(path);
    lemma_components_are_names(path);
    law_normal_form(path);
    law_dir_and_name(names);
    let less = names.drop_last();
    assert forall|i: int| 0 <= i < less.len() implies is_name(#[trigger] less[i]) by {
        assert(is_name(names[i]));
    }
    law_path_of_names_reads_back(less);
}

/// The attributes of a path are those of where its names lead.
pub proof fn law_stat_runs(
    t: Tree,
    path: String,
    given: Seq<char>,
    trace: Seq<(FsReply, Tree)>,
    end: (Tree, Result<Option<FileAttr>, VfsErrorView>),
)
    requires
        t.sound(),
        path@ == normal(given),
        fs_runs::<Stat>(Stat { path, phase: StatPhase::Path }, t, trace, end),
    ensures
        end.0 == t,
        match t.walk(components(given)) {
            Some(ino) => end.1 matches Ok(Some(attr)) && attr_fits(t, ino, attr),
            None => end.1 == Ok::<Option<FileAttr>, VfsErrorView>(None),
        },
{
    reveal_with_fuel(fs_runs, 3);
    law_normal_form(given);
    lemma_walk_known(t, components(given));
}

/// A path exists if and only if its names lead somewhere.
pub proof fn law_exists_runs(
    t: Tree,
    path: String,
    given: Seq<char>,
    trace: Seq<(FsReply, Tree)>,
    end: (Tree, Result<bool, VfsErrorView>),
)
    requires
        path@ == normal(given),
        fs_runs::<Exists>(Exists { path, phase: ExistsPhase::Path }, t, trace, end),
    ensures
        end == (t, Ok::<bool, VfsErrorView>(t.walk(components(given)) is Some)),
{
    reveal_with_fuel(fs_runs, 2);
    law_normal_form(given);
}

/// What a creation by path makes of a tree: the file of the path, with the directories on the way.
pub open spec fn file_made(t: Tree, t2: Tree, parts: Seq<Seq<char>>, ino: i64) -> bool {
    &&& t.within(t2)
    &&& t2.sound()
    &&& t2.walk(parts) == Some(ino)
    &&& t2.is(ino, FileType::File)
    &&& t.walk(parts) is Some ==> t2 == t
    &&& forall|at: (i64, Seq<char>)| #[trigger]
        t2.names.dom().contains(at) && !t.names.dom().contains(at) ==> exists|i: int|
            0 <= i < parts.len() && t2.walk(#[trigger] parts.take(i)) == Some(at.0) && parts[i]
                == at.1
}

/// A file that is made in its directory.
proof fn lemma_made_in_dir(
    t: Tree,
    t1: Tree,
    parts: Seq<Seq<char>>,
    dir: i64,
    ino: i64,
)
    requires
        t1.sound(),
        parts.len() > 0,
        t.walk(parts) is None,
        t1 == t || grown_along(t, t1, parts.drop_last()),
        t1.walk(parts.drop_last()) == Some(dir),
        t1.is(dir, FileType::Dir),
        t1.child(dir, parts.last()) is None,
        !t1.kinds.dom().contains(ino),
    ensures
        file_made(t, t1.with(dir, parts.last(), ino, FileType::File), parts, ino),
{
    let t2 = t1.with(dir, parts.last(), ino, FileType::File);
    let dirs = parts.drop_last();
    let n = dirs.len() as int;
    lemma_with(t1, dir, parts.last(), ino, FileType::File);
    lemma_walk_within(t1, t2, dirs);
    assert(t2.walk(parts) == Some(ino));
    assert(parts.take(n) =~= dirs);
    assert forall|at: (i64, Seq<char>)| #[trigger]
        t2.names.dom().contains(at) && !t.names.dom().contains(at) implies exists|i: int|
        0 <= i < parts.len() && t2.walk(#[trigger] parts.take(i)) == Some(at.0) && parts[i]
            == at.1 by {
        if at == (dir, parts.last()) {
            assert(t2.walk(parts.take(n)) == Some(at.0));
        } else {
            assert(t1.names.dom().contains(at));
            let i = choose|i: int|
                0 <= i < dirs.len() && t1.walk(#[trigger] dirs.take(i)) == Some(at.0) && dirs[i]
                    == at.1;
            assert(parts.take(i) =~= dirs.take(i));
            lemma_walk_within(t1, t2, dirs.take(i));
        }
    }
    assert(t.within(t2)) by {
        assert forall|k: i64| #[trigger] t.kinds.dom().contains(k) implies t2.kinds.dom().contains(
            k,
        ) && t2.kinds[k] == t.kinds[k] by {
            assert(t1.kinds.dom().contains(k));
        }
        assert forall|k: i64| #[trigger] t.sizes.dom().contains(k) implies t2.sizes.dom().contains(
            k,
        ) && t2.sizes[k] == t.sizes[k] by {
            assert(t1.sizes.dom().contains(k));
        }
        assert forall|k: (i64, Seq<char>)| #[trigger]
            t.names.dom().contains(k) implies t2.names.dom().contains(k) && t2.names[k]
            == t.names[k] by {
            assert(t1.names.dom().contains(k));
        }
    }
}

/// A directory that was made on the way is empty.
pub proof fn lemma_made_is_empty(t: Tree, t1: Tree, dirs: Seq<Seq<char>>, dir: i64, name: Seq<char>)
    requires
        t.sound(),
        t1.sound(),
        t.walk(dirs) is None,
        grown_along(t, t1, dirs),
        t1.walk(dirs) == Some(dir),
    ensures
        t1.child(dir, name) is None,
{
    lemma_walk_known(t1, dirs);
    assert(dirs.len() > 0);
    let up = t1.walk(dirs.drop_last())->0;
    let key = (up, dirs.last());
    assert(t1.names.dom().contains(key));
    lemma_new_way(t, t1, dirs);
    if t1.names.dom().contains((dir, name)) {
        if t.names.dom().contains((dir, name)) {
            assert(t.is(dir, FileType::Dir));
        }
        let i = choose|i: int|
            0 <= i < dirs.len() && t1.walk(#[trigger] dirs.take(i)) == Some(dir) && dirs[i] == name;
        lemma_one_way(t1, dirs, dirs.take(i));
    }
}

/// What a path that was not there leads to is new.
proof fn lemma_new_way(t: Tree, t1: Tree, parts: Seq<Seq<char>>)
    requires
        t.sound(),
        t1.sound(),
        t.within(t1),
        forall|at: (i64, Seq<char>)| #[trigger]
            t1.names.dom().contains(at) && !t.names.dom().contains(at) ==> !t.kinds.dom().contains(
                t1.names[at],
            ),
        t.walk(parts) is None,
        t1.walk(parts) is Some,
    ensures
        !t.kinds.dom().contains(t1.walk(parts)->0),
    decreases parts.len(),
{
    let less = parts.drop_last();
    let up = t1.walk(less)->0;
    let key = (up, parts.last());
    assert(t1.names.dom().contains(key));
    if t.walk(less) is Some {
        lemma_walk_within(t, t1, less);
    } else {
        lemma_new_way(t, t1, less);
        if t.names.dom().contains(key) {
            assert(t.is(up, FileType::Dir));
        }
    }
}

/// A creation by path ends with the file of the path, which is made, with the directories on the
/// way, where it was not there; nothing else changes. It fails where a directory is in its place,
/// or a file on the way.
pub proof fn law_create_file_runs(
    t: Tree,
    s: CreateFile,
    given: Seq<char>,
    trace: Seq<(FsReply, Tree)>,
    end: (Tree, Result<Inode, VfsErrorView>),
)
    requires
        t.sound(),
        components(given).len() > 0,
        s.path@ == normal(given),
        (s.dir@, s.name@) == dir_and_name(normal(given)),
        s.phase == CreateFilePhase::Dirs,
        fs_runs::<CreateFile>(s, t, trace, end),
    ensures
        match end.1 {
            Ok(ino) => file_made(t, end.0, components(given), ino.0),
            Err(e) => end.0 == t && (e == VfsErrorView::NotFile(normal(given)) || e
                == VfsErrorView::NotDirectory(normal(given)) || e == VfsErrorView::NotDirectory(
                s.dir@,
            )),
        },
        t.walk(components(given)) matches Some(ino) && t.is(ino, FileType::File) ==> end == (
            t,
            Ok::<Inode, VfsErrorView>(Inode(t.walk(components(given))->0)),
        ),
        t.walk(components(given)) matches Some(ino) && t.is(ino, FileType::Dir) ==> end == (
            t,
            Err::<Inode, VfsErrorView>(VfsErrorView::NotFile(normal(given))),
        ),
{
    reveal_with_fuel(fs_runs, 6);
    lemma_dir(given);
    let parts = components(given);
    let dirs = parts.drop_last();
    lemma_walk_known(t, parts);
    lemma_walk_known(t, dirs);
    assert(normal(s.dir@) == s.dir@);
    let t1 = trace[0].1;
    if let FsReply::Path(Ok(dir)) = trace[0].0 {
        lemma_walk_known(t1, dirs);
        if t.walk(dirs) is None {
            lemma_made_is_empty(t, t1, dirs, dir.0, parts.last());
        }
        if t1.is(dir.0, FileType::Dir) && t1.child(dir.0, parts.last()) is None {
            if let Ok(ino) = end.1 {
                assert(!t1.kinds.dom().contains(ino.0));
                lemma_made_in_dir(t, t1, parts, dir.0, ino.0);
            }
        }
    }
}

/// The listing of a path holds exactly the children of the directory where its names lead, one entry
/// for each.
pub proof fn law_list_runs(
    t: Tree,
    path: String,
    given: Seq<char>,
    trace: Seq<(FsReply, Tree)>,
    end: (Tree, Result<Seq<DirEntry>, VfsErrorView>),
)
    requires
        t.sound(),
        path@ == normal(given),
        fs_runs::<List>(List { path, phase: ListPhase::Path }, t, trace, end),
    ensures
        end.0 == t,
        end.1 is Ok <==> (t.walk(components(given)) matches Some(ino) && t.is(ino, FileType::Dir)),
        end.1 matches Ok(list) ==> lists(t, t.walk(components(given))->0, list),
        t.walk(components(given)) matches Some(ino) && t.is(ino, FileType::File) ==> end.1 == Err::<
            Seq<DirEntry>,
            VfsErrorView,
        >(VfsErrorView::NotDirectory(normal(given))),
{
    reveal_with_fuel(fs_runs, 4);
    law_normal_form(given);
    lemma_walk_known(t, components(given));
}

/// A walk that does not use a name is the same without it.
proof fn lemma_walk_without(t: Tree, dir: i64, name: Seq<char>, parts: Seq<Seq<char>>)
    requires
        t.sound(),
        t.names.dom().contains((dir, name)),
        !t.has_entries(t.names[(dir, name)]),
    ensures
        t.without(dir, name).walk(parts) == (if t.walk(parts) == Some(t.names[(dir, name)]) {
            None
        } else {
            t.walk(parts)
        }),
    decreases parts.len(),
{
    let t2 = t.without(dir, name);
    let gone = t.names[(dir, name)];
    if parts.len() > 0 {
        let less = parts.drop_last();
        lemma_walk_without(t, dir, name, less);
        if let Some(up) = t.walk(less) {
            let key = (up, parts.last());
            if up == gone {
                assert(!t.names.dom().contains(key));
            } else if t.names.dom().contains(key) && t.names[key] == gone {
                assert(key == (dir, name));
            }
        }
    }
}

/// The removal of a name keeps a tree sound.
proof fn lemma_without(t: Tree, dir: i64, name: Seq<char>)
    requires
        t.sound(),
        t.names.dom().contains((dir, name)),
        !t.has_entries(t.names[(dir, name)]),
    ensures
        t.without(dir, name).sound(),
{
    let t2 = t.without(dir, name);
    let gone = t.names[(dir, name)];
    assert(t2.sizes.dom() =~= t2.kinds.dom());
    assert forall|at: (i64, Seq<char>)| #[trigger] t2.names.dom().contains(at) implies t2.is(
        at.0,
        FileType::Dir,
    ) && t2.kinds.dom().contains(t2.names[at]) && t2.names[at] != t2.root by {
        assert(t.names.dom().contains(at));
        if t.names[at] == gone {
            assert(at == (dir, name));
        }
        if at.0 == gone {
            assert(t.names.dom().contains((gone, at.1)));
        }
    }
    assert forall|a: (i64, Seq<char>), b: (i64, Seq<char>)| #[trigger]
        t2.names.dom().contains(a) && #[trigger] t2.names.dom().contains(b) && t2.names[a]
            == t2.names[b] implies a == b by {
        assert(t.names.dom().contains(a) && t.names.dom().contains(b));
    }
}

/// What a removal makes of a tree: the path leads nowhere, and every other path leads where it led.
pub open spec fn removed(t: Tree, t2: Tree, parts: Seq<Seq<char>>) -> bool {
    &&& t2.sound()
    &&& t2.walk(parts) is None
    &&& forall|other: Seq<Seq<char>>|
        other != parts ==> #[trigger] t2.walk(other) == t.walk(other)
    &&& forall|ino: i64|
        t.walk(parts) != Some(ino) ==> (#[trigger] t2.kinds.dom().contains(ino)
            <==> t.kinds.dom().contains(ino)) && t2.kinds[ino] == t.kinds[ino]
}

/// The removal of the last name of a path.
proof fn lemma_removed(t: Tree, parts: Seq<Seq<char>>, dir: i64)
    requires
        t.sound(),
        parts.len() > 0,
        t.walk(parts.drop_last()) == Some(dir),
        t.walk(parts) is Some,
        !t.has_entries(t.walk(parts)->0),
    ensures
        removed(t, t.without(dir, parts.last()), parts),
{
    let t2 = t.without(dir, parts.last());
    lemma_without(t, dir, parts.last());
    lemma_walk_without(t, dir, parts.last(), parts);
    assert forall|other: Seq<Seq<char>>| other != parts implies #[trigger] t2.walk(other)
        == t.walk(other) by {
        lemma_walk_without(t, dir, parts.last(), other);
        if t.walk(other) == t.walk(parts) {
            lemma_one_way(t, other, parts);
        }
    }
}

/// A file has no entries.
proof fn lemma_file_is_leaf(t: Tree, ino: i64)
    requires
        t.sound(),
        t.is(ino, FileType::File),
    ensures
        !t.has_entries(ino),
{
    if t.has_entries(ino) {
        let name = choose|name: Seq<char>| #[trigger] t.names.dom().contains((ino, name));
        assert(t.is(ino, FileType::Dir));
    }
}

/// The removal of a file by path succeeds if and only if the path leads to a file; then the path
/// leads nowhere, and every other path leads where it led. Otherwise nothing changes.
pub proof fn law_unlink_file_runs(
    t: Tree,
    s: UnlinkFile,
    given: Seq<char>,
    trace: Seq<(FsReply, Tree)>,
    end: (Tree, Result<(), VfsErrorView>),
)
    requires
        t.sound(),
        components(given).len() > 0,
        s.path@ == normal(given),
        (s.dir@, s.name@) == dir_and_name(normal(given)),
        s.phase == UnlinkFilePhase::Dir,
        fs_runs::<UnlinkFile>(s, t, trace, end),
    ensures
        match t.walk(components(given)) {
            Some(ino) => if t.is(ino, FileType::File) {
                end.1 == Ok::<(), VfsErrorView>(()) && removed(t, end.0, components(given))
            } else {
                end == (t, Err::<(), VfsErrorView>(VfsErrorView::NotFile(normal(given))))
            },
            None => end.0 == t && end.1 is Err,
        },
{
    reveal_with_fuel(fs_runs, 5);
    lemma_dir(given);
    let parts = components(given);
    lemma_walk_known(t, parts);
    if let Some(ino) = t.walk(parts) {
        let dir = t.walk(parts.drop_last())->0;
        assert(t.names.dom().contains((dir, parts.last())));
        if t.is(ino, FileType::File) {
            lemma_file_is_leaf(t, ino);
            lemma_removed(t, parts, dir);
        }
    }
}

/// A list of the children of a directory has entries where the directory has some.
proof fn lemma_lists_some(t: Tree, dir: i64)
    ensures
        forall|list: Seq<DirEntry>| #[trigger]
            lists(t, dir, list) ==> (list.len() > 0 <==> t.has_entries(dir)),
{
    assert forall|list: Seq<DirEntry>| #[trigger] lists(t, dir, list) implies (list.len() > 0
        <==> t.has_entries(dir)) by {
        if list.len() > 0 {
            assert(t.child(dir, list[0].name@) == Some(list[0].ino));
            assert(t.names.dom().contains((dir, list[0].name@)));
        }
        if t.has_entries(dir) {
            let name = choose|name: Seq<char>| #[trigger] t.names.dom().contains((dir, name));
            assert(t.child(dir, name) is Some);
        }
    }
}

/// The removal of a directory by path succeeds if and only if the path leads to a directory
/// without entries; then the path leads nowhere, and every other path leads where it led.
/// Otherwise nothing changes.
pub proof fn law_remove_dir_runs(
    t: Tree,
    s: RemoveDir,
    given: Seq<char>,
    trace: Seq<(FsReply, Tree)>,
    end: (Tree, Result<(), VfsErrorView>),
)
    requires
        t.sound(),
        components(given).len() > 0,
        s.path@ == normal(given),
        (s.dir@, s.name@) == dir_and_name(normal(given)),
        s.phase == RemoveDirPhase::Dir,
        fs_runs::<RemoveDir>(s, t, trace, end),
    ensures
        match t.walk(components(given)) {
            Some(ino) => if t.is(ino, FileType::File) {
                end == (t, Err::<(), VfsErrorView>(VfsErrorView::NotDirectory(normal(given))))
            } else if t.has_entries(ino) {
                end == (t, Err::<(), VfsErrorView>(VfsErrorView::DirectoryNotEmpty(normal(given))))
            } else {
                end.1 == Ok::<(), VfsErrorView>(()) && removed(t, end.0, components(given))
            },
            None => end.0 == t && end.1 is Err,
        },
{
    reveal_with_fuel(fs_runs, 6);
    lemma_dir(given);
    let parts = components(given);
    lemma_walk_known(t, parts);
    if let Some(ino) = t.walk(parts) {
        let dir = t.walk(parts.drop_last())->0;
        assert(t.names.dom().contains((dir, parts.last())));
        lemma_lists_some(t, ino);
        if t.is(ino, FileType::Dir) && !t.has_entries(ino) {
            lemma_removed(t, parts, dir);
        }
    }
}

/// Where paths lead once a file was moved: the new path leads to it, the old one nowhere, and
/// every other one where it led.
proof fn lemma_walk_moved(
    t: Tree,
    old: Seq<Seq<char>>,
    old_dir: i64,
    new: Seq<Seq<char>>,
    new_dir: i64,
    parts: Seq<Seq<char>>,
)
    requires
        t.sound(),
        old.len() > 0,
        new.len() > 0,
        t.walk(old.drop_last()) == Some(old_dir),
        t.walk(old) matches Some(ino) && t.is(ino, FileType::File),
        t.walk(new.drop_last()) == Some(new_dir),
        t.is(new_dir, FileType::Dir),
        t.walk(new) is None,
    ensures
        t.moved(old_dir, old.last(), new_dir, new.last()).walk(parts) == (if parts == new {
            t.walk(old)
        } else if parts == old {
            None
        } else {
            t.walk(parts)
        }),
    decreases parts.len(),
{
    let t2 = t.moved(old_dir, old.last(), new_dir, new.last());
    let ino = t.walk(old)->0;
    lemma_walk_known(t, old);
    lemma_file_is_leaf(t, ino);
    let old_key = (old_dir, old.last());
    let new_key = (new_dir, new.last());
    assert(t.names.dom().contains(old_key));
    if parts.len() > 0 {
        let less = parts.drop_last();
        lemma_walk_moved(t, old, old_dir, new, new_dir, less);
        assert(parts =~= less.push(parts.last()));
        assert(new =~= new.drop_last().push(new.last()));
        assert(old =~= old.drop_last().push(old.last()));
        if less == new || less == old {
            assert(!t.names.dom().contains((ino, parts.last())));
            assert(parts != new || less == new.drop_last());
        } else if let Some(up) = t.walk(less) {
            let key = (up, parts.last());
            if key == new_key {
                lemma_one_way(t, less, new.drop_last());
                assert(parts == new);
            } else if key == old_key {
                lemma_one_way(t, less, old.drop_last());
                assert(parts == old);
            } else {
                assert(parts != new);
                assert(parts != old);
            }
        }
    }
}

/// What a move makes of a tree: the new path leads to the file, the old one nowhere, and every
/// other one that led somewhere leads there still.
pub open spec fn file_moved(t: Tree, t2: Tree, old: Seq<Seq<char>>, new: Seq<Seq<char>>) -> bool {
    &&& t2.walk(new) == t.walk(old)
    &&& t2.walk(old) is None
    &&& forall|other: Seq<Seq<char>>|
        other != old && t.walk(other) is Some ==> #[trigger] t2.walk(other) == t.walk(other)
}

/// The move of a file by path replaces nothing and moves files only; where it succeeds the new
/// path leads to the file, the old one nowhere, and every other path that led somewhere leads
/// there still. Directories may have been made on the way even where it fails.
pub proof fn law_rename_file_runs(
    t: Tree,
    s: RenameFile,
    old: Seq<char>,
    new: Seq<char>,
    trace: Seq<(FsReply, Tree)>,
    end: (Tree, Result<(), VfsErrorView>),
)
    requires
        t.sound(),
        components(old).len() > 0,
        components(new).len() > 0,
        s.old_path@ == normal(old),
        (s.old_dir@, s.old_name@) == dir_and_name(normal(old)),
        s.new_path@ == normal(new),
        (s.new_dir@, s.new_name@) == dir_and_name(normal(new)),
        s.phase == RenameFilePhase::Target,
        fs_runs::<RenameFile>(s, t, trace, end),
    ensures
        t.walk(components(new)) is Some ==> end == (
            t,
            Err::<(), VfsErrorView>(VfsErrorView::AlreadyExists(normal(new))),
        ),
        t.walk(components(new)) is None && t.walk(components(old)) is None ==> end.0 == t
            && end.1 is Err,
        t.walk(components(new)) is None && (t.walk(components(old)) matches Some(ino) && t.is(
            ino,
            FileType::Dir,
        )) ==> end == (t, Err::<(), VfsErrorView>(VfsErrorView::NotFile(normal(old)))),
        end.1 is Ok ==> file_moved(t, end.0, components(old), components(new)),
        end.1 is Err ==> end.0 == t || grown_along(t, end.0, components(new).drop_last()),
        t.walk(components(new)) is None && (t.walk(components(old)) matches Some(ino) && t.is(
            ino,
            FileType::File,
        )) && (t.walk(components(new).drop_last()) matches Some(dir) && t.is(dir, FileType::Dir))
            ==> end.1 is Ok,
{
    reveal_with_fuel(fs_runs, 8);
    lemma_dir(old);
    lemma_dir(new);
    let from = components(old);
    let to = components(new);
    lemma_walk_known(t, from);
    lemma_walk_known(t, to.drop_last());
    if t.walk(to) is None && (t.walk(from) matches Some(ino) && t.is(ino, FileType::File)) {
        let old_dir = t.walk(from.drop_last())->0;
        let made = trace.drop_first().drop_first().drop_first().drop_first()[0];
        let t1 = made.1;
        if let FsReply::Path(Ok(dir)) = made.0 {
            assert(t.within(t1));
            lemma_walk_within(t, t1, from);
            lemma_walk_within(t, t1, from.drop_last());
            if t.walk(to.drop_last()) is None {
                lemma_made_is_empty(t, t1, to.drop_last(), dir.0, to.last());
            }
            assert(t1.walk(to) is None);
            if t1.is(dir.0, FileType::Dir) {
                let t2 = t1.moved(old_dir, from.last(), dir.0, to.last());
                lemma_walk_moved(t1, from, old_dir, to, dir.0, to);
                lemma_walk_moved(t1, from, old_dir, to, dir.0, from);
                assert forall|other: Seq<Seq<char>>|
                    other != from && t.walk(other) is Some implies #[trigger] t2.walk(other)
                    == t.walk(other) by {
                    lemma_walk_moved(t1, from, old_dir, to, dir.0, other);
                    lemma_walk_within(t, t1, other);
                }
            }
        }
    }
}

/// The tree once bytes were written to an inode: the file ends no earlier than they do.
pub open spec fn after_write(t: Tree, ino: i64, offset: u64, data: Seq<u8>) -> Tree {
    Tree {
        bytes: written(t.bytes, ino, offset as int, data),
        sizes: if offset + data.len() > t.sizes[ino] {
            t.sizes.insert(ino, (offset + data.len()) as u64)
        } else {
            t.sizes
        },
        ..t
    }
}

/// A write to a file that is there writes all its bytes, lets the file end no earlier than they
/// end, and changes nothing else.
pub proof fn law_write_runs(
    t: Tree,
    ino: Inode,
    offset: u64,
    data: Vec<u8>,
    trace: Seq<(FsReply, Tree)>,
    end: (Tree, Result<usize, VfsErrorView>),
)
    requires
        t.is(ino.0, FileType::File),
        offset + data@.len() <= u64::MAX,
        fs_runs::<WriteInode>(
            WriteInode { ino, offset, data, phase: WriteInodePhase::Data },
            t,
            trace,
            end,
        ),
    ensures
        end == (
            after_write(t, ino.0, offset, data@),
            Ok::<usize, VfsErrorView>(data@.len() as usize),
        ),
{
    reveal_with_fuel(fs_runs, 4);
}

/// A write by path writes all its bytes to the file of the path and lets it end where they end;
/// without such a file nothing changes.
pub proof fn law_write_file_runs(
    t: Tree,
    path: String,
    given: Seq<char>,
    offset: u64,
    data: Vec<u8>,
    trace: Seq<(FsReply, Tree)>,
    end: (Tree, Result<usize, VfsErrorView>),
)
    requires
        t.sound(),
        path@ == normal(given),
        offset + data@.len() <= u64::MAX,
        fs_runs::<WriteFile>(
            WriteFile { path, offset, data, phase: WriteFilePhase::Path },
            t,
            trace,
            end,
        ),
    ensures
        match t.walk(components(given)) {
            Some(ino) => end == (
                Tree {
                    bytes: written(t.bytes, ino, offset as int, data@),
                    ..t.resized(ino, (offset + data@.len()) as u64)
                },
                Ok::<usize, VfsErrorView>(data@.len() as usize),
            ),
            None => end.0 == t && end.1 is Err,
        },
{
    reveal_with_fuel(fs_runs, 4);
    law_normal_form(given);
    lemma_walk_known(t, components(given));
}

/// What a byte is after a write.
pub proof fn lemma_written(
    bytes: Map<(i64, int), u8>,
    ino: i64,
    offset: int,
    data: Seq<u8>,
    of: i64,
    at: int,
)
    ensures
        ({
            let after = written(bytes, ino, offset, data);
            if of == ino && offset <= at < offset + data.len() {
                after.dom().contains((of, at)) && after[(of, at)] == data[at - offset]
            } else {
                after.dom().contains((of, at)) == bytes.dom().contains((of, at)) && (
                bytes.dom().contains((of, at)) ==> after[(of, at)] == bytes[(of, at)])
            }
        }),
    decreases data.len(),
{
    if data.len() > 0 {
        lemma_written(bytes, ino, offset, data.drop_last(), of, at);
    }
}

/// A write touches no byte but those it is meant for.
pub proof fn law_write_touches_nothing_else(
    t: Tree,
    ino: i64,
    offset: u64,
    data: Seq<u8>,
    of: i64,
    at: int,
)
    requires
        of != ino || at < offset || at >= offset + data.len(),
    ensures
        after_write(t, ino, offset, data).byte(of, at) == t.byte(of, at),
{
    lemma_written(t.bytes, ino, offset as int, data, of, at);
}

/// A read of a file that is there gives the bytes that are wanted, up to the end of the file.
pub proof fn law_read_runs(
    t: Tree,
    ino: Inode,
    offset: u64,
    len: usize,
    trace: Seq<(FsReply, Tree)>,
    end: (Tree, Result<Seq<u8>, VfsErrorView>),
)
    requires
        t.is(ino.0, FileType::File),
        fs_runs::<ReadInode>(
            ReadInode { ino, offset, len, phase: ReadInodePhase::Size },
            t,
            trace,
            end,
        ),
    ensures
        end == (
            t,
            Ok::<Seq<u8>, VfsErrorView>(
                t.part(ino.0, offset as int, readable(offset, len, t.sizes[ino.0]) as nat),
            ),
        ),
{
    reveal_with_fuel(fs_runs, 3);
    assert(t.part(ino.0, offset as int, 0) =~= Seq::<u8>::empty());
}

/// A read by path gives the bytes of the file of the path that are wanted, up to the end of the
/// file; without such a file it fails. It changes nothing.
pub proof fn law_read_file_runs(
    t: Tree,
    path: String,
    given: Seq<char>,
    offset: u64,
    len: usize,
    trace: Seq<(FsReply, Tree)>,
    end: (Tree, Result<Seq<u8>, VfsErrorView>),
)
    requires
        t.sound(),
        path@ == normal(given),
        fs_runs::<ReadFile>(
            ReadFile { path, offset, len, phase: ReadFilePhase::Path },
            t,
            trace,
            end,
        ),
    ensures
        end.0 == t,
        match t.walk(components(given)) {
            Some(ino) => t.is(ino, FileType::File) ==> end.1 == Ok::<Seq<u8>, VfsErrorView>(
                t.part(ino, offset as int, readable(offset, len, t.sizes[ino]) as nat),
            ),
            None => end.1 is Err,
        },
{
    reveal_with_fuel(fs_runs, 4);
    law_normal_form(given);
    lemma_walk_known(t, components(given));
    if let Some(ino) = t.walk(components(given)) {
        assert(t.part(ino, offset as int, 0) =~= Seq::<u8>::empty());
    }
}

/// What was written is read back: a read of the place of a write, on the tree that the write left,
/// gives the bytes that were written.
pub proof fn law_written_is_read_back(
    t: Tree,
    ino: Inode,
    offset: u64,
    data: Vec<u8>,
    writing: Seq<(FsReply, Tree)>,
    wrote: (Tree, Result<usize, VfsErrorView>),
    reading: Seq<(FsReply, Tree)>,
    read: (Tree, Result<Seq<u8>, VfsErrorView>),
)
    requires
        t.is(ino.0, FileType::File),
        offset + data@.len() <= usize::MAX,
        t.sizes[ino.0] <= usize::MAX,
        fs_runs::<WriteInode>(
            WriteInode { ino, offset, data, phase: WriteInodePhase::Data },
            t,
            writing,
            wrote,
        ),
        fs_runs::<ReadInode>(
            ReadInode {
                ino,
                offset,
                len: data@.len() as usize,
                phase: ReadInodePhase::Size,
            },
            wrote.0,
            reading,
            read,
        ),
    ensures
        read.1 == Ok::<Seq<u8>, VfsErrorView>(data@),
{
    law_write_runs(t, ino, offset, data, writing, wrote);
    law_read_runs(wrote.0, ino, offset, data@.len() as usize, reading, read);
    let t2 = wrote.0;
    let got = t2.part(ino.0, offset as int, data@.len());
    assert forall|k: int| 0 <= k < data@.len() implies got[k] == data@[k] by {
        lemma_written(t.bytes, ino.0, offset as int, data@, ino.0, offset + k);
    }
    assert(got =~= data@);
}

/// What was written by path is read back by path.
pub proof fn law_written_file_is_read_back(
    t: Tree,
    path: String,
    given: Seq<char>,
    offset: u64,
    data: Vec<u8>,
    writing: Seq<(FsReply, Tree)>,
    wrote: (Tree, Result<usize, VfsErrorView>),
    reading: Seq<(FsReply, Tree)>,
    read: (Tree, Result<Seq<u8>, VfsErrorView>),
)
    requires
        t.sound(),
        path@ == normal(given),
        t.walk(components(given)) matches Some(ino) && t.is(ino, FileType::File),
        offset + data@.len() <= usize::MAX,
        fs_runs::<WriteFile>(
            WriteFile { path, offset, data, phase: WriteFilePhase::Path },
            t,
            writing,
            wrote,
        ),
        fs_runs::<ReadFile>(
            ReadFile { path, offset, len: data@.len() as usize, phase: ReadFilePhase::Path },
            wrote.0,
            reading,
            read,
        ),
    ensures
        read.1 == Ok::<Seq<u8>, VfsErrorView>(data@),
{
    let parts = components(given);
    let ino = t.walk(parts)->0;
    let t2 = wrote.0;
    law_write_file_runs(t, path, given, offset, data, writing, wrote);
    lemma_walk_known(t, parts);
    assert(t2.sizes.dom() =~= t.sizes.dom());
    assert(t2.sound());
    lemma_same_walk(t, t2, parts);
    law_read_file_runs(t2, path, given, offset, data@.len() as usize, reading, read);
    let got = t2.part(ino, offset as int, data@.len());
    assert forall|k: int| 0 <= k < data@.len() implies got[k] == data@[k] by {
        lemma_written(t.bytes, ino, offset as int, data@, ino, offset + k);
    }
    assert(got =~= data@);
}

/// Where the names are the same, every path leads to the same inode.
proof fn lemma_same_walk(t: Tree, t2: Tree, parts: Seq<Seq<char>>)
    requires
        t2.root == t.root,
        t2.names == t.names,
        t2.kinds == t.kinds,
    ensures
        t2.walk(parts) == t.walk(parts),
    decreases parts.len(),
{
    if parts.len() > 0 {
        lemma_same_walk(t, t2, parts.drop_last());
    }
}

/// A file that is truncated by path has the size that was set, and nothing else is changed.
pub proof fn law_truncate_runs(
    t: Tree,
    path: String,
    given: Seq<char>,
    size: u64,
    trace: Seq<(FsReply, Tree)>,
    end: (Tree, Result<(), VfsErrorView>),
)
    requires
        t.sound(),
        path@ == normal(given),
        fs_runs::<Truncate>(Truncate { path, size, phase: TruncatePhase::Path }, t, trace, end),
    ensures
        match t.walk(components(given)) {
            Some(ino) => end.0 == t.resized(ino, size) && (t.is(ino, FileType::File) ==> end.1 == Ok::<
                (),
                VfsErrorView,
            >(())),
            None => end.0 == t && end.1 is Err,
        },
{
    reveal_with_fuel(fs_runs, 3);
    law_normal_form(given);
    lemma_walk_known(t, components(given));
}

} // verus!
