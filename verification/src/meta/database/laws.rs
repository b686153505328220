//! What the operations on the tables do as a whole.

use crate::meta::database::db::{
    at_rest, db_runs, Database, DbOperation, DbReply, DbRequestView, EntryView, Tables,
};
use crate::meta::database::listing::{
    attr_map, dir_attrs, file_attrs, inodes, with_attrs, BatchState, GetattrBatch, Lookup, Readdir,
    Readdirplus, ReaddirplusState,
};
use crate::meta::database::names::{
    with_a_link_less, Rename, RenamePhase, Rmdir, RmdirPhase, Unlink, UnlinkPhase,
};
use crate::meta::database::nodes::{insert_node, root_dir, CreateNode, InitRoot, NodePhase};
use crate::meta::database::store::{
    entry_type_of, insert_meta, updated_dir, updated_file, Create, CreatePhase, Getattr, Setattr,
    SetattrPhase,
};
use crate::meta::entities::{AccessMetaModel, ContentMetaModel, EntryType, FileMetaModel};
use crate::meta::etcd::atomic_reads::{dir_attr, dir_entries, dir_entry, file_attr, find_content};
use crate::meta::store::{DirEntry, ErrorView, FileAttr, FileType};
use crate::meta::types::{CreateParams, Inode, SetAttrMask};
use vstd::prelude::*;

verus! {

/// What holds of the tables between operations: a row is found under its own
/// inode, no inode is both a file and a directory, a name stands in a directory
/// once, what an entry stands for has metadata of its type, and it stands in a directory.
pub open spec fn sound(t: Tables) -> bool {
    &&& forall|i: i64| #[trigger] t.files.dom().contains(i) ==> t.files[i].inode == i
    &&& forall|i: i64| #[trigger] t.dirs.dom().contains(i) ==> t.dirs[i].inode == i
    &&& forall|i: i64| #[trigger]
        t.files.dom().contains(i) ==> !t.dirs.dom().contains(i)
    &&& forall|a: i64, b: i64, parent: i64, name: Seq<char>| #[trigger]
        t.stands(a, parent, name) && #[trigger] t.stands(b, parent, name) ==> a == b
    &&& forall|i: i64| #[trigger]
        t.entries.dom().contains(i) ==> match t.entries[i].entry_type {
            EntryType::File => t.files.dom().contains(i),
            EntryType::Directory => t.dirs.dom().contains(i),
        }
    &&& forall|i: i64| #[trigger]
        t.entries.dom().contains(i) ==> t.dirs.dom().contains(t.entries[i].parent)
}

/// What stands under a name is what the name is found as, and so is a row that says so.
pub proof fn lemma_named(t: Tables, parent: i64, name: Seq<char>)
    requires
        sound(t),
    ensures
        forall|ino: i64| #[trigger]
            t.stands(ino, parent, name) ==> t.named(parent, name) == Some(ino),
        forall|c: ContentMetaModel| #[trigger]
            t.is_row(c) && c.parent_inode == parent && c.entry_name@ == name ==> t.named(
                parent,
                name,
            ) == Some(c.inode),
        t.named(parent, name) matches Some(ino) ==> t.stands(ino, parent, name),
{
    assert forall|ino: i64| #[trigger] t.stands(ino, parent, name) implies t.named(parent, name)
        == Some(ino) by {
        let found = choose|i: i64| #[trigger] t.stands(i, parent, name);
        assert(t.stands(found, parent, name));
    }
    assert forall|c: ContentMetaModel| #[trigger]
        t.is_row(c) && c.parent_inode == parent && c.entry_name@ == name implies t.named(
        parent,
        name,
    ) == Some(c.inode) by {
        assert(t.stands(c.inode, parent, name));
    }
}

/// The number that a creation was given.
pub open spec fn created_id(trace: Seq<(DbReply, Database)>) -> i64 {
    match trace[3].0 {
        DbReply::Id(ino) => ino,
        _ => 0,
    }
}

/// The attributes of a new file or directory.
pub open spec fn new_attr(req: DbRequestView) -> FileAttr {
    match req {
        DbRequestView::InsertFile(m) => file_attr(m),
        DbRequestView::InsertDir(m) => dir_attr(m),
        _ => arbitrary(),
    }
}

/// What a creation makes of the tables, and its result.
pub open spec fn create_end(t: Tables, params: CreateParams, now: i64, ino: i64) -> (
    Tables,
    Result<(Inode, FileAttr), ErrorView>,
) {
    let parent = params.parent.0;
    let name = params.name@;
    let meta = insert_meta(params, now, ino);
    let entry = EntryView { parent, name, entry_type: entry_type_of(params.kind) };
    if !t.dirs.dom().contains(parent) {
        (t, Err(ErrorView::ParentNotFound(parent)))
    } else if t.named(parent, name) is Some {
        (t, Err(ErrorView::AlreadyExists { parent, name }))
    } else {
        (
            t.written(meta).written(DbRequestView::InsertEntry(ino, entry)),
            Ok((Inode(ino), new_attr(meta))),
        )
    }
}

/// A creation does what `create_end` says, with a number that was not in use.
/// Where the database fails, it does that or nothing.
pub proof fn law_create_runs(
    steady: bool,
    t: Tables,
    params: CreateParams,
    now: i64,
    trace: Seq<(DbReply, Database)>,
    end: (Tables, Result<(Inode, FileAttr), ErrorView>),
)
    requires
        sound(t),
        db_runs::<Create>(
            steady,
            Create { params, now, phase: CreatePhase::Begin },
            at_rest(t),
            trace,
            end,
        ),
    ensures
        steady ==> end == create_end(t, params, now, created_id(trace)),
        end.0 == t || end.0 == create_end(t, params, now, created_id(trace)).0,
        end.1 is Ok ==> t.unused(created_id(trace)),
{
    reveal_with_fuel(db_runs, 10);
    lemma_named(t, params.parent.0, params.name@);
}

/// What attributes are read as.
pub open spec fn getattr_end(t: Tables, ino: i64) -> Result<FileAttr, ErrorView> {
    if t.files.dom().contains(ino) {
        Ok(file_attr(t.files[ino]))
    } else if t.dirs.dom().contains(ino) {
        Ok(dir_attr(t.dirs[ino]))
    } else {
        Err(ErrorView::NotFound(ino))
    }
}

/// Attributes are read as `getattr_end` says, and reading changes nothing.
pub proof fn law_getattr_runs(
    steady: bool,
    t: Tables,
    ino: i64,
    trace: Seq<(DbReply, Database)>,
    end: (Tables, Result<FileAttr, ErrorView>),
)
    requires
        sound(t),
        db_runs::<Getattr>(steady, Getattr { ino, as_dir: false }, at_rest(t), trace, end),
    ensures
        steady ==> end.1 == getattr_end(t, ino),
        end.0 == t,
{
    reveal_with_fuel(db_runs, 3);
}

/// What a name is found as.
pub open spec fn lookup_end(t: Tables, parent: i64, name: Seq<char>) -> Result<Inode, ErrorView> {
    match t.named(parent, name) {
        Some(ino) => Ok(Inode(ino)),
        None => Err(ErrorView::NotFound(parent)),
    }
}

/// A name is found as `lookup_end` says, and the search changes nothing.
pub proof fn law_lookup_runs(
    steady: bool,
    t: Tables,
    parent: i64,
    name: String,
    trace: Seq<(DbReply, Database)>,
    end: (Tables, Result<Inode, ErrorView>),
)
    requires
        sound(t),
        db_runs::<Lookup>(steady, Lookup { parent, name }, at_rest(t), trace, end),
    ensures
        steady ==> end.1 == lookup_end(t, parent, name@),
        end.0 == t,
{
    reveal_with_fuel(db_runs, 2);
    lemma_named(t, parent, name@);
}

/// What an update makes of the tables, and its result.
pub open spec fn setattr_end(t: Tables, ino: i64, mask: SetAttrMask) -> (
    Tables,
    Result<FileAttr, ErrorView>,
) {
    if t.files.dom().contains(ino) {
        let m = updated_file(t.files[ino], mask);
        (Tables { files: t.files.insert(ino, m), ..t }, Ok(file_attr(m)))
    } else if t.dirs.dom().contains(ino) {
        let m = updated_dir(t.dirs[ino], mask);
        (Tables { dirs: t.dirs.insert(ino, m), ..t }, Ok(dir_attr(m)))
    } else {
        (t, Err(ErrorView::NotFound(ino)))
    }
}

/// An update does what `setattr_end` says. Where the database fails, it does that or nothing.
pub proof fn law_setattr_runs(
    steady: bool,
    t: Tables,
    ino: i64,
    mask: SetAttrMask,
    trace: Seq<(DbReply, Database)>,
    end: (Tables, Result<FileAttr, ErrorView>),
)
    requires
        sound(t),
        db_runs::<Setattr>(
            steady,
            Setattr { ino, mask, phase: SetattrPhase::Begin },
            at_rest(t),
            trace,
            end,
        ),
    ensures
        steady ==> end == setattr_end(t, ino, mask),
        end.0 == t || end.0 == setattr_end(t, ino, mask).0,
{
    reveal_with_fuel(db_runs, 8);
    assert(t.files.dom().contains(ino) ==> t.files[ino].inode == ino);
    assert(t.dirs.dom().contains(ino) ==> t.dirs[ino].inode == ino);
}

/// What a move makes of the tables, and its result.
pub open spec fn rename_end(
    t: Tables,
    old_parent: i64,
    old_name: Seq<char>,
    new_parent: i64,
    new_name: Seq<char>,
) -> (Tables, Result<(), ErrorView>) {
    match t.named(old_parent, old_name) {
        None => (t, Err(ErrorView::NotFound(old_parent))),
        Some(ino) => if !t.dirs.dom().contains(new_parent) {
            (t, Err(ErrorView::ParentNotFound(new_parent)))
        } else {
            let entry = EntryView {
                parent: new_parent,
                name: new_name,
                entry_type: t.entries[ino].entry_type,
            };
            match t.named(new_parent, new_name) {
                Some(target) => if t.entries[target].entry_type == EntryType::Directory
                    && t.has_entries(target) {
                    (t, Err(ErrorView::DirectoryNotEmpty(target)))
                } else {
                    (
                        Tables { entries: t.entries.remove(target).insert(ino, entry), ..t },
                        Ok(()),
                    )
                },
                None => (Tables { entries: t.entries.insert(ino, entry), ..t }, Ok(())),
            }
        },
    }
}

/// A move does what `rename_end` says. Where the database fails, it does that or nothing.
pub proof fn law_rename_runs(
    steady: bool,
    t: Tables,
    old_parent: i64,
    old_name: String,
    new_parent: i64,
    new_name: String,
    trace: Seq<(DbReply, Database)>,
    end: (Tables, Result<(), ErrorView>),
)
    requires
        sound(t),
        db_runs::<Rename>(
            steady,
            Rename { old_parent, old_name, new_parent, new_name, phase: RenamePhase::Begin },
            at_rest(t),
            trace,
            end,
        ),
    ensures
        steady ==> end == rename_end(t, old_parent, old_name@, new_parent, new_name@),
        end.0 == t || end.0 == rename_end(t, old_parent, old_name@, new_parent, new_name@).0,
{
    reveal_with_fuel(db_runs, 10);
    lemma_named(t, old_parent, old_name@);
    lemma_named(t, new_parent, new_name@);
    let end_entries = rename_end(t, old_parent, old_name@, new_parent, new_name@).0.entries;
    if let Some(ino) = t.named(old_parent, old_name@) {
        let entry = EntryView {
            parent: new_parent,
            name: new_name@,
            entry_type: t.entries[ino].entry_type,
        };
        assert(t.entries.remove(ino).insert(ino, entry) =~= t.entries.insert(ino, entry));
        if let Some(target) = t.named(new_parent, new_name@) {
            assert(t.entries.remove(target).remove(ino).insert(ino, entry) =~= t.entries.remove(
                target,
            ).insert(ino, entry));
        }
    }
}

/// What the removal of a file makes of the tables, and its result.
pub open spec fn unlink_end(t: Tables, parent: i64, name: Seq<char>) -> (
    Tables,
    Result<(), ErrorView>,
) {
    match t.named(parent, name) {
        None => (t, Err(ErrorView::NotFound(parent))),
        Some(ino) => match t.entries[ino].entry_type {
            EntryType::Directory => (
                t,
                Err(ErrorView::Internal("Cannot unlink directory, use rmdir"@)),
            ),
            EntryType::File => (
                Tables {
                    entries: t.entries.remove(ino),
                    files: if t.files[ino].nlink <= 1 {
                        t.files.remove(ino)
                    } else {
                        t.files.insert(ino, with_a_link_less(t.files[ino]))
                    },
                    ..t
                },
                Ok(()),
            ),
        },
    }
}

/// The removal of a file does what `unlink_end` says. Where the database fails, it
/// does that or nothing.
pub proof fn law_unlink_runs(
    steady: bool,
    t: Tables,
    parent: i64,
    name: String,
    trace: Seq<(DbReply, Database)>,
    end: (Tables, Result<(), ErrorView>),
)
    requires
        sound(t),
        db_runs::<Unlink>(
            steady,
            Unlink { parent, name, phase: UnlinkPhase::Begin },
            at_rest(t),
            trace,
            end,
        ),
    ensures
        steady ==> end == unlink_end(t, parent, name@),
        end.0 == t || end.0 == unlink_end(t, parent, name@).0,
{
    reveal_with_fuel(db_runs, 7);
    lemma_named(t, parent, name@);
}

/// What the removal of a directory makes of the tables, and its result.
pub open spec fn rmdir_end(t: Tables, parent: i64, name: Seq<char>) -> (
    Tables,
    Result<(), ErrorView>,
) {
    match t.named(parent, name) {
        None => (t, Err(ErrorView::NotFound(parent))),
        Some(ino) => match t.entries[ino].entry_type {
            EntryType::File => (t, Err(ErrorView::NotDirectory(ino))),
            EntryType::Directory => if t.has_entries(ino) {
                (t, Err(ErrorView::DirectoryNotEmpty(ino)))
            } else {
                (
                    Tables { entries: t.entries.remove(ino), dirs: t.dirs.remove(ino), ..t },
                    Ok(()),
                )
            },
        },
    }
}

/// The removal of a directory does what `rmdir_end` says. Where the database fails,
/// it does that or nothing.
pub proof fn law_rmdir_runs(
    steady: bool,
    t: Tables,
    parent: i64,
    name: String,
    trace: Seq<(DbReply, Database)>,
    end: (Tables, Result<(), ErrorView>),
)
    requires
        sound(t),
        db_runs::<Rmdir>(
            steady,
            Rmdir { parent, name, phase: RmdirPhase::Begin },
            at_rest(t),
            trace,
            end,
        ),
    ensures
        steady ==> end == rmdir_end(t, parent, name@),
        end.0 == t || end.0 == rmdir_end(t, parent, name@).0,
{
    reveal_with_fuel(db_runs, 7);
    lemma_named(t, parent, name@);
}

/// The number that a node was given.
pub open spec fn node_id(trace: Seq<(DbReply, Database)>) -> i64 {
    match trace[2].0 {
        DbReply::Id(ino) => ino,
        _ => 0,
    }
}

/// What the creation of a node makes of the tables, and its result.
pub open spec fn create_node_end(
    t: Tables,
    parent: i64,
    name: Seq<char>,
    kind: EntryType,
    now: i64,
    ino: i64,
) -> (Tables, Result<i64, ErrorView>) {
    if !t.dirs.dom().contains(parent) {
        (t, Err(ErrorView::ParentNotFound(parent)))
    } else if t.named(parent, name) is Some {
        (t, Err(ErrorView::AlreadyExists { parent, name }))
    } else {
        (
            t.written(insert_node(kind, ino, now)).written(
                DbRequestView::InsertEntry(ino, EntryView { parent, name, entry_type: kind }),
            ),
            Ok(ino),
        )
    }
}

/// A listing of a directory holds a name if and only if the name stands there.
proof fn lemma_listed(t: Tables, parent: i64, name: Seq<char>, rows: Seq<ContentMetaModel>)
    requires
        sound(t),
        forall|i: int|
            0 <= i < rows.len() ==> t.is_row(#[trigger] rows[i]) && rows[i].parent_inode == parent,
        forall|ino: i64| #[trigger]
            t.entries.dom().contains(ino) && t.entries[ino].parent == parent ==> exists|i: int|
                0 <= i < rows.len() && #[trigger] rows[i].inode == ino,
    ensures
        find_content(rows, name) is Some <==> t.named(parent, name) is Some,
    decreases rows.len(),
{
    lemma_named(t, parent, name);
    lemma_find_content(rows, name);
    if let Some(ino) = t.named(parent, name) {
        assert(t.entries.dom().contains(ino));
        let i = choose|i: int| 0 <= i < rows.len() && #[trigger] rows[i].inode == ino;
        assert(t.is_row(rows[i]));
    }
    if exists|i: int| 0 <= i < rows.len() && #[trigger] rows[i].entry_name@ == name {
        let i = choose|i: int| 0 <= i < rows.len() && #[trigger] rows[i].entry_name@ == name;
        assert(t.is_row(rows[i]));
    }
}

/// A row is found by its name if and only if there is one.
proof fn lemma_find_content(rows: Seq<ContentMetaModel>, name: Seq<char>)
    ensures
        find_content(rows, name) is Some <==> exists|i: int|
            0 <= i < rows.len() && #[trigger] rows[i].entry_name@ == name,
    decreases rows.len(),
{
    if rows.len() > 0 {
        lemma_find_content(rows.drop_first(), name);
        if exists|i: int| 0 <= i < rows.len() && #[trigger] rows[i].entry_name@ == name {
            let i = choose|i: int| 0 <= i < rows.len() && #[trigger] rows[i].entry_name@ == name;
            if i > 0 {
                assert(rows.drop_first()[i - 1].entry_name@ == name);
            }
        }
        if exists|i: int|
            0 <= i < rows.drop_first().len() && #[trigger] rows.drop_first()[i].entry_name@
                == name {
            let i = choose|i: int|
                0 <= i < rows.drop_first().len() && #[trigger] rows.drop_first()[i].entry_name@
                    == name;
            assert(rows[i + 1].entry_name@ == name);
        }
    }
}

/// The creation of a node does what `create_node_end` says.
pub proof fn law_create_node_runs(
    t: Tables,
    parent: i64,
    name: String,
    kind: EntryType,
    now: i64,
    trace: Seq<(DbReply, Database)>,
    end: (Tables, Result<i64, ErrorView>),
)
    requires
        sound(t),
        db_runs::<CreateNode>(
            true,
            CreateNode { parent, name, kind, now, phase: NodePhase::Parent },
            at_rest(t),
            trace,
            end,
        ),
    ensures
        end == create_node_end(t, parent, name@, kind, now, node_id(trace)),
        end.1 is Ok ==> t.unused(node_id(trace)),
{
    reveal_with_fuel(db_runs, 6);
    if t.dirs.dom().contains(parent) {
        if let DbReply::Entries(rows) = trace.drop_first()[0].0 {
            lemma_listed(t, parent, name@, rows@);
        }
    }
}

/// The preparation of the root directory leaves one that is there, and makes one otherwise.
pub proof fn law_init_root_runs(
    t: Tables,
    now: i64,
    trace: Seq<(DbReply, Database)>,
    end: (Tables, Result<(), ErrorView>),
)
    requires
        db_runs::<InitRoot>(true, InitRoot { now, missing: false }, at_rest(t), trace, end),
    ensures
        end.1 == Ok::<(), ErrorView>(()),
        end.0 == (if t.dirs.dom().contains(1) {
            t
        } else {
            Tables { dirs: t.dirs.insert(1, root_dir(now)), ..t }
        }),
{
    reveal_with_fuel(db_runs, 3);
}

/// Whether a list says once of each name of a directory what it stands for, and says nothing else.
pub open spec fn lists(t: Tables, parent: i64, list: Seq<DirEntry>) -> bool {
    &&& forall|i: int|
        0 <= i < list.len() ==> t.stands((#[trigger] list[i]).ino, parent, list[i].name@)
            && list[i].kind == (match t.entries[list[i].ino].entry_type {
            EntryType::File => FileType::File,
            EntryType::Directory => FileType::Dir,
        })
    &&& forall|ino: i64| #[trigger]
        t.entries.dom().contains(ino) && t.entries[ino].parent == parent ==> exists|i: int|
            0 <= i < list.len() && #[trigger] list[i].ino == ino
    &&& forall|i: int, j: int|
        0 <= i < j < list.len() ==> #[trigger] list[i].ino != #[trigger] list[j].ino
}

/// A listing says once of each name of the directory what it stands for, and
/// changes nothing.
pub proof fn law_readdir_runs(
    steady: bool,
    t: Tables,
    ino: i64,
    trace: Seq<(DbReply, Database)>,
    end: (Tables, Result<Seq<DirEntry>, ErrorView>),
)
    requires
        sound(t),
        db_runs::<Readdir>(steady, Readdir { ino, is_dir: false }, at_rest(t), trace, end),
    ensures
        steady && !t.dirs.dom().contains(ino) ==> end.1 == Err::<Seq<DirEntry>, ErrorView>(
            ErrorView::NotDirectory(ino),
        ),
        steady && t.dirs.dom().contains(ino) ==> (end.1 matches Ok(list) && lists(t, ino, list)),
        end.0 == t,
{
    reveal_with_fuel(db_runs, 3);
    if steady && t.dirs.dom().contains(ino) {
        assert(trace.drop_first()[0].0 is Entries);
        let rows = trace.drop_first()[0].0->Entries_0@;
        lemma_lists(t, ino, rows);
    }
}

/// Every operation keeps the tables sound.
pub proof fn law_operations_keep_tables_sound(
    t: Tables,
    params: CreateParams,
    now: i64,
    ino: i64,
    mask: SetAttrMask,
    old_parent: i64,
    old_name: Seq<char>,
    new_parent: i64,
    new_name: Seq<char>,
)
    requires
        sound(t),
    ensures
        t.unused(ino) ==> sound(create_end(t, params, now, ino).0),
        sound(setattr_end(t, ino, mask).0),
        sound(rename_end(t, old_parent, old_name, new_parent, new_name).0),
        sound(unlink_end(t, old_parent, old_name).0),
        sound(rmdir_end(t, old_parent, old_name).0),
{
    lemma_named(t, params.parent.0, params.name@);
    lemma_named(t, old_parent, old_name);
    lemma_named(t, new_parent, new_name);
    if t.unused(ino) {
        lemma_create_sound(t, params, now, ino);
    }
    lemma_setattr_sound(t, ino, mask);
    lemma_rename_sound(t, old_parent, old_name, new_parent, new_name);
    lemma_removal_sound(t, old_parent, old_name);
}

/// A creation keeps the tables sound.
proof fn lemma_create_sound(t: Tables, params: CreateParams, now: i64, ino: i64)
    requires
        sound(t),
        t.unused(ino),
    ensures
        sound(create_end(t, params, now, ino).0),
{
    let parent = params.parent.0;
    let name = params.name@;
    lemma_named(t, parent, name);
    let t2 = create_end(t, params, now, ino).0;
    assert forall|a: i64, b: i64, p: i64, n: Seq<char>| #[trigger]
        t2.stands(a, p, n) && #[trigger] t2.stands(b, p, n) implies a == b by {
        if a != ino {
            assert(t.stands(a, p, n));
        }
        if b != ino {
            assert(t.stands(b, p, n));
        }
    }
}

/// An update keeps the tables sound.
proof fn lemma_setattr_sound(t: Tables, ino: i64, mask: SetAttrMask)
    requires
        sound(t),
    ensures
        sound(setattr_end(t, ino, mask).0),
{
    let t2 = setattr_end(t, ino, mask).0;
    assert forall|a: i64, b: i64, p: i64, n: Seq<char>| #[trigger]
        t2.stands(a, p, n) && #[trigger] t2.stands(b, p, n) implies a == b by {
        assert(t.stands(a, p, n) && t.stands(b, p, n));
    }
}

/// A move keeps the tables sound.
proof fn lemma_rename_sound(
    t: Tables,
    old_parent: i64,
    old_name: Seq<char>,
    new_parent: i64,
    new_name: Seq<char>,
)
    requires
        sound(t),
    ensures
        sound(rename_end(t, old_parent, old_name, new_parent, new_name).0),
{
    lemma_named(t, old_parent, old_name);
    lemma_named(t, new_parent, new_name);
    let t2 = rename_end(t, old_parent, old_name, new_parent, new_name).0;
    assert forall|a: i64, b: i64, p: i64, n: Seq<char>| #[trigger]
        t2.stands(a, p, n) && #[trigger] t2.stands(b, p, n) implies a == b by {
        let ino = t.named(old_parent, old_name)->0;
        if t2 == t || a != ino {
            assert(t.stands(a, p, n));
        }
        if t2 == t || b != ino {
            assert(t.stands(b, p, n));
        }
    }
}

/// Removals keep the tables sound.
proof fn lemma_removal_sound(t: Tables, parent: i64, name: Seq<char>)
    requires
        sound(t),
    ensures
        sound(unlink_end(t, parent, name).0),
        sound(rmdir_end(t, parent, name).0),
{
    lemma_named(t, parent, name);
    let t2 = unlink_end(t, parent, name).0;
    assert forall|a: i64, b: i64, p: i64, n: Seq<char>| #[trigger]
        t2.stands(a, p, n) && #[trigger] t2.stands(b, p, n) implies a == b by {
        assert(t.stands(a, p, n) && t.stands(b, p, n));
    }
    let t3 = rmdir_end(t, parent, name).0;
    assert forall|a: i64, b: i64, p: i64, n: Seq<char>| #[trigger]
        t3.stands(a, p, n) && #[trigger] t3.stands(b, p, n) implies a == b by {
        assert(t.stands(a, p, n) && t.stands(b, p, n));
    }
}

/// An operation that is refused changes nothing.
pub proof fn law_refusal_changes_nothing(
    t: Tables,
    params: CreateParams,
    now: i64,
    ino: i64,
    mask: SetAttrMask,
    old_parent: i64,
    old_name: Seq<char>,
    new_parent: i64,
    new_name: Seq<char>,
)
    ensures
        create_end(t, params, now, ino).1 is Err ==> create_end(t, params, now, ino).0 == t,
        setattr_end(t, ino, mask).1 is Err ==> setattr_end(t, ino, mask).0 == t,
        rename_end(t, old_parent, old_name, new_parent, new_name).1 is Err ==> rename_end(
            t,
            old_parent,
            old_name,
            new_parent,
            new_name,
        ).0 == t,
        unlink_end(t, old_parent, old_name).1 is Err ==> unlink_end(t, old_parent, old_name).0 == t,
        rmdir_end(t, old_parent, old_name).1 is Err ==> rmdir_end(t, old_parent, old_name).0 == t,
{
}

/// What was created is found under its name, with the attributes that the creation gave.
pub proof fn law_created_is_found(t: Tables, params: CreateParams, now: i64, ino: i64)
    requires
        sound(t),
        t.unused(ino),
        create_end(t, params, now, ino).1 is Ok,
    ensures
        lookup_end(create_end(t, params, now, ino).0, params.parent.0, params.name@) == Ok::<
            Inode,
            ErrorView,
        >(Inode(ino)),
        getattr_end(create_end(t, params, now, ino).0, ino) == Ok::<FileAttr, ErrorView>(
            create_end(t, params, now, ino).1->Ok_0.1,
        ),
        create_end(t, params, now, ino).1->Ok_0.0 == Inode(ino),
{
    lemma_create_sound(t, params, now, ino);
    let t2 = create_end(t, params, now, ino).0;
    lemma_named(t2, params.parent.0, params.name@);
    assert(t2.stands(ino, params.parent.0, params.name@));
}

/// Two tables with the same content are the same.
proof fn lemma_tables_equal(a: Tables, b: Tables)
    requires
        a.files =~= b.files,
        a.dirs =~= b.dirs,
        a.entries =~= b.entries,
    ensures
        a == b,
{
}

/// The removal of a new file, or of a new directory, undoes its creation.
pub proof fn law_removal_undoes_create(t: Tables, params: CreateParams, now: i64, ino: i64)
    requires
        sound(t),
        t.unused(ino),
        create_end(t, params, now, ino).1 is Ok,
    ensures
        params.kind == FileType::File ==> unlink_end(
            create_end(t, params, now, ino).0,
            params.parent.0,
            params.name@,
        ) == (t, Ok::<(), ErrorView>(())),
        params.kind == FileType::Dir ==> rmdir_end(
            create_end(t, params, now, ino).0,
            params.parent.0,
            params.name@,
        ) == (t, Ok::<(), ErrorView>(())),
{
    lemma_create_sound(t, params, now, ino);
    let parent = params.parent.0;
    let t2 = create_end(t, params, now, ino).0;
    lemma_named(t2, parent, params.name@);
    assert(t2.stands(ino, parent, params.name@));
    match params.kind {
        FileType::File => {
            lemma_tables_equal(unlink_end(t2, parent, params.name@).0, t);
        },
        FileType::Dir => {
            assert forall|k: i64| #[trigger]
                t2.entries.dom().contains(k) implies t2.entries[k].parent != ino by {
                if k != ino {
                    assert(t.entries.dom().contains(k));
                }
            }
            lemma_tables_equal(rmdir_end(t2, parent, params.name@).0, t);
        },
    }
}

/// What was removed is found no more, under its name or by its inode; a file
/// with further links keeps its metadata.
pub proof fn law_removed_is_gone(t: Tables, parent: i64, name: Seq<char>)
    requires
        sound(t),
    ensures
        unlink_end(t, parent, name).1 is Ok ==> lookup_end(
            unlink_end(t, parent, name).0,
            parent,
            name,
        ) == Err::<Inode, ErrorView>(ErrorView::NotFound(parent)),
        unlink_end(t, parent, name).1 is Ok && t.files[t.named(parent, name)->0].nlink <= 1
            ==> getattr_end(unlink_end(t, parent, name).0, t.named(parent, name)->0) == Err::<
            FileAttr,
            ErrorView,
        >(ErrorView::NotFound(t.named(parent, name)->0)),
        rmdir_end(t, parent, name).1 is Ok ==> lookup_end(
            rmdir_end(t, parent, name).0,
            parent,
            name,
        ) == Err::<Inode, ErrorView>(ErrorView::NotFound(parent)),
        rmdir_end(t, parent, name).1 is Ok ==> getattr_end(
            rmdir_end(t, parent, name).0,
            t.named(parent, name)->0,
        ) == Err::<FileAttr, ErrorView>(ErrorView::NotFound(t.named(parent, name)->0)),
{
    lemma_named(t, parent, name);
    let t2 = unlink_end(t, parent, name).0;
    let t3 = rmdir_end(t, parent, name).0;
    if t2.named(parent, name) is Some && unlink_end(t, parent, name).1 is Ok {
        let i = t2.named(parent, name)->0;
        assert(t2.stands(i, parent, name));
        assert(t.stands(i, parent, name));
    }
    if t3.named(parent, name) is Some && rmdir_end(t, parent, name).1 is Ok {
        let i = t3.named(parent, name)->0;
        assert(t3.stands(i, parent, name));
        assert(t.stands(i, parent, name));
    }
}

/// A directory with entries is not removed, nor replaced by a move.
pub proof fn law_full_directory_stays(
    t: Tables,
    parent: i64,
    name: Seq<char>,
    old_parent: i64,
    old_name: Seq<char>,
)
    requires
        sound(t),
        t.named(parent, name) matches Some(ino) && t.entries[ino].entry_type
            == EntryType::Directory && t.has_entries(ino),
    ensures
        rmdir_end(t, parent, name) == (
            t,
            Err::<(), ErrorView>(ErrorView::DirectoryNotEmpty(t.named(parent, name)->0)),
        ),
        rename_end(t, old_parent, old_name, parent, name).0 == t,
{
}

/// A move that succeeds takes the inode from the old name to the new one, with its
/// type, and leaves every other entry and all metadata as they are; what stood under
/// the new name stands there no more.
pub proof fn law_rename_moves(
    t: Tables,
    old_parent: i64,
    old_name: Seq<char>,
    new_parent: i64,
    new_name: Seq<char>,
)
    requires
        sound(t),
        rename_end(t, old_parent, old_name, new_parent, new_name).1 is Ok,
    ensures
        ({
            let t2 = rename_end(t, old_parent, old_name, new_parent, new_name).0;
            let ino = t.named(old_parent, old_name)->0;
            &&& lookup_end(t, old_parent, old_name) == Ok::<Inode, ErrorView>(Inode(ino))
            &&& lookup_end(t2, new_parent, new_name) == Ok::<Inode, ErrorView>(Inode(ino))
            &&& (old_parent, old_name) != (new_parent, new_name) ==> lookup_end(
                t2,
                old_parent,
                old_name,
            ) == Err::<Inode, ErrorView>(ErrorView::NotFound(old_parent))
            &&& t2.entries[ino].entry_type == t.entries[ino].entry_type
            &&& t2.files == t.files
            &&& t2.dirs == t.dirs
            &&& forall|i: i64|
                i != ino && t.named(new_parent, new_name) != Some(i) ==> (
                #[trigger] t2.entries.dom().contains(i) <==> t.entries.dom().contains(i))
                    && t2.entries[i] == t.entries[i]
        }),
{
    let t2 = rename_end(t, old_parent, old_name, new_parent, new_name).0;
    let ino = t.named(old_parent, old_name)->0;
    lemma_named(t, old_parent, old_name);
    lemma_named(t, new_parent, new_name);
    lemma_rename_sound(t, old_parent, old_name, new_parent, new_name);
    lemma_named(t2, new_parent, new_name);
    lemma_named(t2, old_parent, old_name);
    assert(t2.stands(ino, new_parent, new_name));
    if let Some(i) = t2.named(old_parent, old_name) {
        assert(t2.stands(i, old_parent, old_name));
        if i != ino {
            assert(t.stands(i, old_parent, old_name));
        }
    }
}

/// An update sets what the mask names, keeps the rest, and is read back as it was answered.
pub proof fn law_setattr_sets_what_the_mask_names(t: Tables, ino: i64, mask: SetAttrMask)
    requires
        sound(t),
        setattr_end(t, ino, mask).1 is Ok,
    ensures
        ({
            let before = getattr_end(t, ino)->Ok_0;
            let after = setattr_end(t, ino, mask).1->Ok_0;
            &&& getattr_end(setattr_end(t, ino, mask).0, ino) == Ok::<FileAttr, ErrorView>(after)
            &&& after.kind == before.kind
            &&& after.uid == (if mask.uid is Some {
                mask.uid->0
            } else {
                before.uid
            })
            &&& after.gid == (if mask.gid is Some {
                mask.gid->0
            } else {
                before.gid
            })
            &&& after.atime == (if mask.atime is Some {
                mask.atime->0
            } else {
                before.atime
            })
            &&& after.mtime == (if mask.mtime is Some {
                mask.mtime->0
            } else {
                before.mtime
            })
            &&& after.ctime == before.ctime
            &&& after.nlink == before.nlink
            &&& mask.mode is None ==> after.mode == before.mode
            &&& mask.mode is Some && after.kind == FileType::File ==> after.mode == mask.mode->0
            &&& mask.mode is Some && after.kind == FileType::Dir ==> after.mode == mask.mode->0
                | 0o40000
            &&& mask.size is None || after.kind == FileType::Dir ==> after.size == before.size
            &&& mask.size is Some && after.kind == FileType::File ==> after.size == mask.size->0
        }),
        setattr_end(t, ino, mask).0.entries == t.entries,
{
    if let Some(size) = mask.size {
        assert((size as i64) as u64 == size) by (bit_vector);
    }
}

/// Whether a list says of the inodes that are there what their attributes are, and says nothing else.
pub open spec fn tells_attrs(t: Tables, inos: Seq<i64>, list: Seq<(Inode, FileAttr)>) -> bool {
    &&& forall|k: int|
        0 <= k < list.len() ==> inos.contains((#[trigger] list[k]).0.0) && getattr_end(
            t,
            list[k].0.0,
        ) == Ok::<FileAttr, ErrorView>(list[k].1)
    &&& forall|ino: i64| #[trigger]
        inos.contains(ino) && getattr_end(t, ino) is Ok ==> exists|k: int|
            0 <= k < list.len() && (#[trigger] list[k]).0.0 == ino
}

/// The two halves of a batch tell the attributes.
proof fn lemma_batch(
    t: Tables,
    inos: Seq<i64>,
    files: Seq<FileMetaModel>,
    dirs: Seq<AccessMetaModel>,
)
    requires
        sound(t),
        forall|m: FileMetaModel| #[trigger]
            files.contains(m) <==> inos.contains(m.inode) && t.files.dom().contains(m.inode)
                && t.files[m.inode] == m,
        forall|m: AccessMetaModel| #[trigger]
            dirs.contains(m) <==> inos.contains(m.inode) && t.dirs.dom().contains(m.inode)
                && t.dirs[m.inode] == m,
    ensures
        tells_attrs(t, inos, file_attrs(files) + dir_attrs(dirs)),
{
    let list = file_attrs(files) + dir_attrs(dirs);
    let n = files.len() as int;
    assert forall|k: int| 0 <= k < list.len() implies inos.contains((#[trigger] list[k]).0.0)
        && getattr_end(t, list[k].0.0) == Ok::<FileAttr, ErrorView>(list[k].1) by {
        if k < n {
            assert(files.contains(files[k]));
        } else {
            assert(dirs.contains(dirs[k - n]));
        }
    }
    assert forall|ino: i64| #[trigger]
        inos.contains(ino) && getattr_end(t, ino) is Ok implies exists|k: int|
        0 <= k < list.len() && (#[trigger] list[k]).0.0 == ino by {
        if t.files.dom().contains(ino) {
            assert(files.contains(t.files[ino]));
            let k = choose|k: int| 0 <= k < files.len() && files[k] == t.files[ino];
            assert(list[k].0.0 == ino);
        } else {
            assert(dirs.contains(t.dirs[ino]));
            let k = choose|k: int| 0 <= k < dirs.len() && dirs[k] == t.dirs[ino];
            assert(list[n + k].0.0 == ino);
        }
    }
}

/// A batch tells of each inode that is there what `getattr_end` says of it, and
/// changes nothing.
pub proof fn law_getattr_batch_runs(
    steady: bool,
    t: Tables,
    inos: Seq<i64>,
    trace: Seq<(DbReply, Database)>,
    end: (Tables, Result<Seq<(Inode, FileAttr)>, ErrorView>),
)
    requires
        sound(t),
        db_runs::<GetattrBatch>(steady, BatchState { inos, found: None }, at_rest(t), trace, end),
    ensures
        steady ==> (end.1 matches Ok(list) && tells_attrs(t, inos, list)),
        end.0 == t,
{
    reveal_with_fuel(db_runs, 3);
    if steady {
        assert(trace[0].0 is Files);
        assert(trace.drop_first()[0].0 is Dirs);
        lemma_batch(t, inos, trace[0].0->Files_0@, trace.drop_first()[0].0->Dirs_0@);
    }
}

/// The attributes by inode are those that the list tells.
proof fn lemma_attr_map(attrs: Seq<(Inode, FileAttr)>)
    ensures
        forall|ino: i64| #[trigger]
            attr_map(attrs).dom().contains(ino) ==> exists|k: int|
                0 <= k < attrs.len() && (#[trigger] attrs[k]).0.0 == ino && attrs[k].1 == attr_map(
                    attrs,
                )[ino],
        forall|k: int|
            0 <= k < attrs.len() ==> attr_map(attrs).dom().contains((#[trigger] attrs[k]).0.0),
    decreases attrs.len(),
{
    if attrs.len() > 0 {
        let less = attrs.drop_last();
        lemma_attr_map(less);
        assert forall|ino: i64| #[trigger]
            attr_map(attrs).dom().contains(ino) implies exists|k: int|
            0 <= k < attrs.len() && (#[trigger] attrs[k]).0.0 == ino && attrs[k].1 == attr_map(
                attrs,
            )[ino] by {
            if ino == attrs.last().0.0 {
                assert(attrs[attrs.len() - 1].0.0 == ino);
            } else {
                assert(attr_map(less).dom().contains(ino));
                let k = choose|k: int|
                    0 <= k < less.len() && (#[trigger] less[k]).0.0 == ino && less[k].1 == attr_map(
                        less,
                    )[ino];
                assert(attrs[k] == less[k]);
            }
        }
        assert forall|k: int| 0 <= k < attrs.len() implies attr_map(attrs).dom().contains(
            (#[trigger] attrs[k]).0.0,
        ) by {
            if k < attrs.len() - 1 {
                assert(less[k] == attrs[k]);
            }
        }
    }
}

/// Where every entry has attributes none is left out.
proof fn lemma_with_attrs(contents: Seq<ContentMetaModel>, attrs: Map<i64, FileAttr>)
    requires
        forall|i: int|
            0 <= i < contents.len() ==> attrs.dom().contains((#[trigger] contents[i]).inode),
    ensures
        with_attrs(contents, attrs) == Seq::new(
            contents.len(),
            |i: int| (dir_entry(contents[i]), attrs[contents[i].inode]),
        ),
    decreases contents.len(),
{
    if contents.len() > 0 {
        lemma_with_attrs(contents.drop_last(), attrs);
        assert(attrs.dom().contains(contents[contents.len() - 1].inode));
    }
    assert(with_attrs(contents, attrs) =~= Seq::new(
        contents.len(),
        |i: int| (dir_entry(contents[i]), attrs[contents[i].inode]),
    ));
}

/// Rows that tell the entries of a directory make a list of them.
proof fn lemma_lists(t: Tables, ino: i64, rows: Seq<ContentMetaModel>)
    requires
        forall|i: int|
            0 <= i < rows.len() ==> t.is_row(#[trigger] rows[i]) && rows[i].parent_inode == ino,
        forall|i: int, j: int|
            0 <= i < j < rows.len() ==> #[trigger] rows[i].inode != #[trigger] rows[j].inode,
        forall|k: i64| #[trigger]
            t.entries.dom().contains(k) && t.entries[k].parent == ino ==> exists|i: int|
                0 <= i < rows.len() && #[trigger] rows[i].inode == k,
    ensures
        lists(t, ino, dir_entries(rows)),
{
    let list = dir_entries(rows);
    assert forall|i: int| 0 <= i < list.len() implies t.stands(
        (#[trigger] list[i]).ino,
        ino,
        list[i].name@,
    ) && list[i].kind == (match t.entries[list[i].ino].entry_type {
        EntryType::File => FileType::File,
        EntryType::Directory => FileType::Dir,
    }) by {
        assert(t.is_row(rows[i]));
    }
    assert forall|k: i64| #[trigger]
        t.entries.dom().contains(k) && t.entries[k].parent == ino implies exists|i: int|
        0 <= i < list.len() && #[trigger] list[i].ino == k by {
        let i = choose|i: int| 0 <= i < rows.len() && #[trigger] rows[i].inode == k;
        assert(list[i].ino == k);
    }
    assert forall|i: int, j: int| 0 <= i < j < list.len() implies #[trigger] list[i].ino
        != #[trigger] list[j].ino by {
        assert(rows[i].inode != rows[j].inode);
    }
}

/// The entries of a list with attributes.
pub open spec fn entries_only(list: Seq<(DirEntry, FileAttr)>) -> Seq<DirEntry> {
    Seq::new(list.len(), |i: int| list[i].0)
}

/// A listing with attributes says once of each name of the directory what it stands
/// for, with the attributes that `getattr_end` gives, and changes nothing.
pub proof fn law_readdirplus_runs(
    steady: bool,
    t: Tables,
    ino: i64,
    trace: Seq<(DbReply, Database)>,
    end: (Tables, Result<Seq<(DirEntry, FileAttr)>, ErrorView>),
)
    requires
        sound(t),
        db_runs::<Readdirplus>(steady, ReaddirplusState::Dir(ino), at_rest(t), trace, end),
    ensures
        steady && !t.dirs.dom().contains(ino) ==> end.1 == Err::<
            Seq<(DirEntry, FileAttr)>,
            ErrorView,
        >(ErrorView::NotDirectory(ino)),
        steady && t.dirs.dom().contains(ino) ==> (end.1 matches Ok(list) && lists(
            t,
            ino,
            entries_only(list),
        ) && forall|i: int|
            0 <= i < list.len() ==> getattr_end(t, (#[trigger] list[i]).0.ino) == Ok::<
                FileAttr,
                ErrorView,
            >(list[i].1)),
        end.0 == t,
{
    reveal_with_fuel(db_runs, 5);
    if steady && t.dirs.dom().contains(ino) {
        let t1 = trace.drop_first();
        assert(t1[0].0 is Entries);
        let rows = t1[0].0->Entries_0@;
        lemma_lists(t, ino, rows);
        if rows.len() == 0 {
            assert(entries_only(Seq::<(DirEntry, FileAttr)>::empty()) =~= dir_entries(rows));
        } else {
            let t2 = t1.drop_first();
            let t3 = t2.drop_first();
            assert(t2[0].0 is Files);
            assert(t3[0].0 is Dirs);
            let files = t2[0].0->Files_0@;
            let dirs = t3[0].0->Dirs_0@;
            let inos = inodes(rows);
            lemma_batch(t, inos, files, dirs);
            let attrs = file_attrs(files) + dir_attrs(dirs);
            let map = attr_map(attrs);
            lemma_attr_map(attrs);
            assert forall|i: int| 0 <= i < rows.len() implies map.dom().contains(
                (#[trigger] rows[i]).inode,
            ) && getattr_end(t, rows[i].inode) == Ok::<FileAttr, ErrorView>(
                map[rows[i].inode],
            ) by {
                let k = rows[i].inode;
                assert(t.is_row(rows[i]));
                assert(t.entries.dom().contains(k));
                assert(inos[i] == k);
                assert(inos.contains(k));
                let at = choose|at: int| 0 <= at < attrs.len() && (#[trigger] attrs[at]).0.0 == k;
                assert(map.dom().contains(attrs[at].0.0));
            }
            lemma_with_attrs(rows, map);
            let list = with_attrs(rows, map);
            assert(end.1 == Ok::<Seq<(DirEntry, FileAttr)>, ErrorView>(list));
            assert(entries_only(list) =~= dir_entries(rows));
            assert forall|i: int| 0 <= i < list.len() implies getattr_end(
                t,
                (#[trigger] list[i]).0.ino,
            ) == Ok::<FileAttr, ErrorView>(list[i].1) by {
                assert(map.dom().contains(rows[i].inode));
            }
        }
    }
}

} // verus!
