//! What the operations on the tables are for, told by what goes in and what comes out.

use crate::meta::database::db::{at_rest, db_runs, Database, DbOperation, DbReply, Tables};
use crate::meta::database::laws::{
    law_create_node_runs, law_create_runs, law_getattr_runs, law_init_root_runs, law_lookup_runs,
    law_rename_runs, law_rmdir_runs, law_setattr_runs, law_unlink_runs, lemma_named, sound,
};
use crate::meta::database::listing::Lookup;
use crate::meta::database::names::{Rename, RenamePhase, Rmdir, RmdirPhase, Unlink, UnlinkPhase};
use crate::meta::database::nodes::{CreateNode, InitRoot, NodePhase};
use crate::meta::database::store::{Create, CreatePhase, Getattr, Setattr, SetattrPhase};
use crate::meta::entities::{AccessMetaModel, EntryType, FileMetaModel};
use crate::meta::store::{ErrorView, FileAttr, FileType};
use crate::meta::types::{CreateParams, Inode, SetAttrMask};
use vstd::prelude::*;

verus! {

/// Whether attributes are those that the row of a file holds, with the least number of blocks of
/// 512 bytes that hold the file.
pub open spec fn of_file_row(m: FileMetaModel, ino: i64, a: FileAttr) -> bool {
    &&& a.ino == ino
    &&& a.kind == FileType::File
    &&& a.size == m.size as u64
    &&& 512 * a.blocks >= a.size
    &&& 512 * a.blocks < a.size + 512
    &&& a.mode == m.permission.mode
    &&& a.uid == m.permission.uid
    &&& a.gid == m.permission.gid
    &&& a.atime == m.access_time
    &&& a.mtime == m.modify_time
    &&& a.ctime == m.create_time
    &&& a.nlink == m.nlink as u32
    &&& a.blksize == 4096
    &&& a.rdev == 0
    &&& a.version == 0
}

/// Whether attributes are those that the row of a directory holds; a directory is told with the
/// size of one page.
pub open spec fn of_dir_row(m: AccessMetaModel, ino: i64, a: FileAttr) -> bool {
    &&& a.ino == ino
    &&& a.kind == FileType::Dir
    &&& a.size == 4096
    &&& a.blocks == 8
    &&& a.mode == m.permission.mode
    &&& a.uid == m.permission.uid
    &&& a.gid == m.permission.gid
    &&& a.atime == m.access_time
    &&& a.mtime == m.modify_time
    &&& a.ctime == m.create_time
    &&& a.nlink == m.nlink as u32
    &&& a.blksize == 4096
    &&& a.rdev == 0
    &&& a.version == 0
}

/// Attributes are read from the row of the inode, a file's or a directory's, and an inode without
/// a row has none.
pub proof fn law_attributes_are_those_of_the_row(
    t: Tables,
    ino: i64,
    trace: Seq<(DbReply, Database)>,
    end: (Tables, Result<FileAttr, ErrorView>),
)
    requires
        sound(t),
        db_runs::<Getattr>(true, Getattr { ino, as_dir: false }, at_rest(t), trace, end),
    ensures
        end.0 == t,
        t.files.dom().contains(ino) ==> (end.1 matches Ok(a) && of_file_row(t.files[ino], ino, a)),
        t.dirs.dom().contains(ino) ==> (end.1 matches Ok(a) && of_dir_row(t.dirs[ino], ino, a)),
        !t.files.dom().contains(ino) && !t.dirs.dom().contains(ino) ==> end.1 == Err::<
            FileAttr,
            ErrorView,
        >(ErrorView::NotFound(ino)),
{
    law_getattr_runs(true, t, ino, trace, end);
}

/// Whether attributes are those of something new that was made as the parameters say: of their
/// kind, owner and group, with their mode, to which a directory adds the directory bit, without
/// bytes, and with the time of the creation.
pub open spec fn made_as_asked(params: CreateParams, now: i64, ino: i64, a: FileAttr) -> bool {
    &&& a.ino == ino
    &&& a.kind == params.kind
    &&& a.uid == params.uid
    &&& a.gid == params.gid
    &&& params.kind == FileType::File ==> a.mode == params.mode && a.size == 0 && a.blocks == 0
        && a.nlink == 1
    &&& params.kind == FileType::Dir ==> a.mode == params.mode | 0o40000 && a.nlink == 2
    &&& a.atime == now
    &&& a.mtime == now
    &&& a.ctime == now
}

/// Whether tables hold a new row of a kind, and its entry, and are otherwise the same.
pub open spec fn one_more(
    t: Tables,
    t2: Tables,
    parent: i64,
    name: Seq<char>,
    kind: FileType,
    ino: i64,
) -> bool {
    &&& t2.entries.dom() == t.entries.dom().insert(ino)
    &&& t2.entries[ino].parent == parent
    &&& t2.entries[ino].name == name
    &&& t2.entries[ino].entry_type == EntryType::File <==> kind == FileType::File
    &&& forall|i: i64| t.entries.dom().contains(i) && i != ino ==> #[trigger] t2.entries[i]
        == t.entries[i]
    &&& kind == FileType::File ==> t2.dirs == t.dirs && t2.files.dom() == t.files.dom().insert(ino)
        && t2.files[ino].inode == ino
    &&& kind == FileType::Dir ==> t2.files == t.files && t2.dirs.dom() == t.dirs.dom().insert(ino)
        && t2.dirs[ino].inode == ino
    &&& forall|i: i64| t.files.dom().contains(i) && i != ino ==> #[trigger] t2.files[i]
        == t.files[i]
    &&& forall|i: i64| t.dirs.dom().contains(i) && i != ino ==> #[trigger] t2.dirs[i] == t.dirs[i]
}

/// A creation in a directory, under a name that is free there, makes what the parameters say under
/// a number that was not in use, tells its attributes, and changes nothing else. Without the
/// directory, or under a name that is taken, nothing is made, and the error says which of the two
/// it is.
pub proof fn law_creation_makes_what_is_asked(
    t: Tables,
    params: CreateParams,
    now: i64,
    trace: Seq<(DbReply, Database)>,
    end: (Tables, Result<(Inode, FileAttr), ErrorView>),
)
    requires
        sound(t),
        db_runs::<Create>(
            true,
            Create { params, now, phase: CreatePhase::Begin },
            at_rest(t),
            trace,
            end,
        ),
    ensures
        !t.dirs.dom().contains(params.parent.0) ==> end == (
            t,
            Err::<(Inode, FileAttr), ErrorView>(ErrorView::ParentNotFound(params.parent.0)),
        ),
        t.dirs.dom().contains(params.parent.0) && (exists|i: i64| #[trigger]
            t.stands(i, params.parent.0, params.name@)) ==> end == (
            t,
            Err::<(Inode, FileAttr), ErrorView>(
                ErrorView::AlreadyExists { parent: params.parent.0, name: params.name@ },
            ),
        ),
        t.dirs.dom().contains(params.parent.0) && !(exists|i: i64| #[trigger]
            t.stands(i, params.parent.0, params.name@)) ==> (end.1 matches Ok(made) && t.unused(
            made.0.0,
        ) && made_as_asked(params, now, made.0.0, made.1) && one_more(
            t,
            end.0,
            params.parent.0,
            params.name@,
            params.kind,
            made.0.0,
        )),
{
    law_create_runs(true, t, params, now, trace, end);
    if let Ok(made) = end.1 {
        let t2 = end.0;
        let ino = made.0.0;
        assert(t2.entries.dom() =~= t.entries.dom().insert(ino));
        assert(params.kind == FileType::File ==> t2.files.dom() =~= t.files.dom().insert(ino));
        assert(params.kind == FileType::Dir ==> t2.dirs.dom() =~= t.dirs.dom().insert(ino));
    }
}

/// What a creation made is read as it was made: attributes that are read afterwards are those that
/// the parameters name, and the name is found as the number that the creation told.
pub proof fn law_created_is_read_as_asked(
    t: Tables,
    params: CreateParams,
    now: i64,
    creating: Seq<(DbReply, Database)>,
    created: (Tables, Result<(Inode, FileAttr), ErrorView>),
    ino: i64,
    reading: Seq<(DbReply, Database)>,
    read: (Tables, Result<FileAttr, ErrorView>),
    looking: Seq<(DbReply, Database)>,
    found: (Tables, Result<Inode, ErrorView>),
)
    requires
        sound(t),
        db_runs::<Create>(
            true,
            Create { params, now, phase: CreatePhase::Begin },
            at_rest(t),
            creating,
            created,
        ),
        created.1 matches Ok(made) && made.0.0 == ino,
        sound(created.0),
        db_runs::<Getattr>(
            true,
            Getattr { ino, as_dir: false },
            at_rest(created.0),
            reading,
            read,
        ),
        db_runs::<Lookup>(
            true,
            Lookup { parent: params.parent.0, name: params.name },
            at_rest(created.0),
            looking,
            found,
        ),
    ensures
        read.1 matches Ok(a) && made_as_asked(params, now, ino, a) && Ok::<FileAttr, ErrorView>(a)
            == Ok::<FileAttr, ErrorView>(created.1->Ok_0.1),
        found.1 == Ok::<Inode, ErrorView>(Inode(ino)),
{
    law_create_runs(true, t, params, now, creating, created);
    law_creation_makes_what_is_asked(t, params, now, creating, created);
    law_getattr_runs(true, created.0, ino, reading, read);
    law_lookup_runs(true, created.0, params.parent.0, params.name, looking, found);
    lemma_named(created.0, params.parent.0, params.name@);
    assert(created.0.stands(ino, params.parent.0, params.name@));
}

/// A look-up finds the inode that stands under the name, and nothing where none does.
pub proof fn law_lookup_finds_what_stands_there(
    t: Tables,
    parent: i64,
    name: String,
    trace: Seq<(DbReply, Database)>,
    end: (Tables, Result<Inode, ErrorView>),
)
    requires
        sound(t),
        db_runs::<Lookup>(true, Lookup { parent, name }, at_rest(t), trace, end),
    ensures
        end.0 == t,
        match end.1 {
            Ok(ino) => t.stands(ino.0, parent, name@),
            Err(e) => e == ErrorView::NotFound(parent) && forall|i: i64|
                !(#[trigger] t.stands(i, parent, name@)),
        },
{
    law_lookup_runs(true, t, parent, name, trace, end);
    lemma_named(t, parent, name@);
}

/// An update sets what the mask names in the row of the inode and keeps the rest of the row,
/// leaves every other row and every entry, and tells the attributes of the new row.
pub proof fn law_update_sets_the_row(
    t: Tables,
    ino: i64,
    mask: SetAttrMask,
    trace: Seq<(DbReply, Database)>,
    end: (Tables, Result<FileAttr, ErrorView>),
)
    requires
        sound(t),
        db_runs::<Setattr>(
            true,
            Setattr { ino, mask, phase: SetattrPhase::Begin },
            at_rest(t),
            trace,
            end,
        ),
    ensures
        end.0.entries == t.entries,
        end.0.files.dom() == t.files.dom(),
        end.0.dirs.dom() == t.dirs.dom(),
        forall|i: i64| i != ino && t.files.dom().contains(i) ==> #[trigger] end.0.files[i]
            == t.files[i],
        forall|i: i64| i != ino && t.dirs.dom().contains(i) ==> #[trigger] end.0.dirs[i]
            == t.dirs[i],
        t.files.dom().contains(ino) ==> {
            let m = t.files[ino];
            let n = end.0.files[ino];
            &&& end.1 matches Ok(a) && of_file_row(n, ino, a)
            &&& n.inode == m.inode
            &&& n.nlink == m.nlink
            &&& n.create_time == m.create_time
            &&& n.size as u64 == (if mask.size is Some {
                mask.size->0
            } else {
                m.size as u64
            })
            &&& n.permission.mode == (if mask.mode is Some {
                mask.mode->0
            } else {
                m.permission.mode
            })
            &&& n.permission.uid == (if mask.uid is Some {
                mask.uid->0
            } else {
                m.permission.uid
            })
            &&& n.permission.gid == (if mask.gid is Some {
                mask.gid->0
            } else {
                m.permission.gid
            })
            &&& n.access_time == (if mask.atime is Some {
                mask.atime->0
            } else {
                m.access_time
            })
            &&& n.modify_time == (if mask.mtime is Some {
                mask.mtime->0
            } else {
                m.modify_time
            })
        },
        t.dirs.dom().contains(ino) ==> {
            let m = t.dirs[ino];
            let n = end.0.dirs[ino];
            &&& end.1 matches Ok(a) && of_dir_row(n, ino, a)
            &&& n.inode == m.inode
            &&& n.nlink == m.nlink
            &&& n.create_time == m.create_time
            &&& n.permission.mode == (if mask.mode is Some {
                mask.mode->0 | 0o40000
            } else {
                m.permission.mode
            })
            &&& n.permission.uid == (if mask.uid is Some {
                mask.uid->0
            } else {
                m.permission.uid
            })
            &&& n.permission.gid == (if mask.gid is Some {
                mask.gid->0
            } else {
                m.permission.gid
            })
            &&& n.access_time == (if mask.atime is Some {
                mask.atime->0
            } else {
                m.access_time
            })
            &&& n.modify_time == (if mask.mtime is Some {
                mask.mtime->0
            } else {
                m.modify_time
            })
        },
        !t.files.dom().contains(ino) && !t.dirs.dom().contains(ino) ==> end == (
            t,
            Err::<FileAttr, ErrorView>(ErrorView::NotFound(ino)),
        ),
{
    law_setattr_runs(true, t, ino, mask, trace, end);
    if let Some(size) = mask.size {
        assert((size as i64) as u64 == size) by (bit_vector);
    }
    assert(end.0.files.dom() =~= t.files.dom());
    assert(end.0.dirs.dom() =~= t.dirs.dom());
    assert(t.files.dom().contains(ino) ==> t.files[ino].inode == ino);
    assert(t.dirs.dom().contains(ino) ==> t.dirs[ino].inode == ino);
}

/// A move takes what stands under the old name to the new one and leaves all rows. What stood
/// under the new name loses its entry; a directory there that has entries refuses the move.
/// Without something under the old name, or without the new directory, nothing moves.
pub proof fn law_move_takes_the_inode_along(
    t: Tables,
    old_parent: i64,
    old_name: String,
    new_parent: i64,
    new_name: String,
    trace: Seq<(DbReply, Database)>,
    end: (Tables, Result<(), ErrorView>),
    ino: i64,
)
    requires
        sound(t),
        db_runs::<Rename>(
            true,
            Rename { old_parent, old_name, new_parent, new_name, phase: RenamePhase::Begin },
            at_rest(t),
            trace,
            end,
        ),
    ensures
        end.0.files == t.files,
        end.0.dirs == t.dirs,
        !(exists|i: i64| #[trigger] t.stands(i, old_parent, old_name@)) ==> end == (
            t,
            Err::<(), ErrorView>(ErrorView::NotFound(old_parent)),
        ),
        t.stands(ino, old_parent, old_name@) && !t.dirs.dom().contains(new_parent) ==> end == (
            t,
            Err::<(), ErrorView>(ErrorView::ParentNotFound(new_parent)),
        ),
        t.stands(ino, old_parent, old_name@) && t.dirs.dom().contains(new_parent) && !(exists|
            i: i64,
        | #[trigger]
            t.stands(i, new_parent, new_name@)) ==> end.1 is Ok,
        forall|target: i64| #[trigger]
            t.stands(target, new_parent, new_name@) && t.stands(ino, old_parent, old_name@)
                && t.dirs.dom().contains(new_parent) ==> if t.entries[target].entry_type
                == EntryType::Directory && t.has_entries(target) {
                end == (t, Err::<(), ErrorView>(ErrorView::DirectoryNotEmpty(target)))
            } else {
                end.1 is Ok && (target != ino ==> !end.0.entries.dom().contains(target))
            },
        t.stands(ino, old_parent, old_name@) && end.1 is Ok ==> {
            &&& end.0.stands(ino, new_parent, new_name@)
            &&& end.0.entries[ino].entry_type == t.entries[ino].entry_type
            &&& forall|i: i64|
                i != ino && !t.stands(i, new_parent, new_name@) ==> (
                #[trigger] end.0.entries.dom().contains(i) <==> t.entries.dom().contains(i)) && (
                t.entries.dom().contains(i) ==> end.0.entries[i] == t.entries[i])
        },
{
    law_rename_runs(true, t, old_parent, old_name, new_parent, new_name, trace, end);
    lemma_named(t, old_parent, old_name@);
    lemma_named(t, new_parent, new_name@);
}

/// The removal of a file takes its entry away, and its row with the last link; one link of several
/// is counted down. A directory under the name, or nothing there, leaves everything.
pub proof fn law_unlink_takes_the_file_away(
    t: Tables,
    parent: i64,
    name: String,
    trace: Seq<(DbReply, Database)>,
    end: (Tables, Result<(), ErrorView>),
    ino: i64,
)
    requires
        sound(t),
        db_runs::<Unlink>(
            true,
            Unlink { parent, name, phase: UnlinkPhase::Begin },
            at_rest(t),
            trace,
            end,
        ),
    ensures
        end.0.dirs == t.dirs,
        !(exists|i: i64| #[trigger] t.stands(i, parent, name@)) ==> end == (
            t,
            Err::<(), ErrorView>(ErrorView::NotFound(parent)),
        ),
        t.stands(ino, parent, name@) && t.entries[ino].entry_type == EntryType::Directory ==> end
            == (t, Err::<(), ErrorView>(ErrorView::Internal("Cannot unlink directory, use rmdir"@))),
        t.stands(ino, parent, name@) && t.entries[ino].entry_type == EntryType::File ==> {
            &&& end.1 is Ok
            &&& end.0.entries == t.entries.remove(ino)
            &&& t.files[ino].nlink <= 1 ==> end.0.files == t.files.remove(ino)
            &&& t.files[ino].nlink > 1 ==> {
                let m = t.files[ino];
                let n = end.0.files[ino];
                &&& end.0.files.dom() == t.files.dom()
                &&& n.nlink == m.nlink - 1
                &&& n.inode == m.inode
                &&& n.size == m.size
                &&& n.permission == m.permission
                &&& n.create_time == m.create_time
                &&& forall|i: i64| i != ino && t.files.dom().contains(i)
                    ==> #[trigger] end.0.files[i] == t.files[i]
            }
        },
{
    law_unlink_runs(true, t, parent, name, trace, end);
    lemma_named(t, parent, name@);
    if t.stands(ino, parent, name@) && t.entries[ino].entry_type == EntryType::File {
        assert(t.files.dom().contains(ino));
        assert(t.files[ino].nlink > 1 ==> end.0.files.dom() =~= t.files.dom());
    }
}

/// The removal of a directory without entries takes its entry and its row away. A directory with
/// entries, a file under the name, or nothing there leaves everything.
pub proof fn law_rmdir_takes_the_directory_away(
    t: Tables,
    parent: i64,
    name: String,
    trace: Seq<(DbReply, Database)>,
    end: (Tables, Result<(), ErrorView>),
    ino: i64,
)
    requires
        sound(t),
        db_runs::<Rmdir>(
            true,
            Rmdir { parent, name, phase: RmdirPhase::Begin },
            at_rest(t),
            trace,
            end,
        ),
    ensures
        end.0.files == t.files,
        !(exists|i: i64| #[trigger] t.stands(i, parent, name@)) ==> end == (
            t,
            Err::<(), ErrorView>(ErrorView::NotFound(parent)),
        ),
        t.stands(ino, parent, name@) && t.entries[ino].entry_type == EntryType::File ==> end == (
            t,
            Err::<(), ErrorView>(ErrorView::NotDirectory(ino)),
        ),
        t.stands(ino, parent, name@) && t.entries[ino].entry_type == EntryType::Directory && (
        exists|i: i64| #[trigger] t.entries.dom().contains(i) && t.entries[i].parent == ino)
            ==> end == (t, Err::<(), ErrorView>(ErrorView::DirectoryNotEmpty(ino))),
        t.stands(ino, parent, name@) && t.entries[ino].entry_type == EntryType::Directory && !(
        exists|i: i64| #[trigger] t.entries.dom().contains(i) && t.entries[i].parent == ino)
            ==> end.1 is Ok && end.0.entries == t.entries.remove(ino) && end.0.dirs
            == t.dirs.remove(ino),
{
    law_rmdir_runs(true, t, parent, name, trace, end);
    lemma_named(t, parent, name@);
}

/// A node is made in a directory, under a name that is free there, with a number that was not in
/// use: a file that everyone may read, or a directory that everyone may enter, of user zero and
/// group zero, with the time of the creation. Otherwise nothing is made.
pub proof fn law_node_is_made_with_standard_permissions(
    t: Tables,
    parent: i64,
    name: String,
    kind: EntryType,
    now: i64,
    trace: Seq<(DbReply, Database)>,
    end: (Tables, Result<i64, ErrorView>),
)
    requires
        sound(t),
        db_runs::<CreateNode>(
            true,
            CreateNode { parent, name, kind, now, phase: NodePhase::Parent },
            at_rest(t),
            trace,
            end,
        ),
    ensures
        !t.dirs.dom().contains(parent) ==> end == (
            t,
            Err::<i64, ErrorView>(ErrorView::ParentNotFound(parent)),
        ),
        t.dirs.dom().contains(parent) && (exists|i: i64| #[trigger] t.stands(i, parent, name@))
            ==> end == (
            t,
            Err::<i64, ErrorView>(ErrorView::AlreadyExists { parent, name: name@ }),
        ),
        t.dirs.dom().contains(parent) && !(exists|i: i64| #[trigger] t.stands(i, parent, name@))
            ==> (end.1 matches Ok(ino) && t.unused(ino) && one_more(
            t,
            end.0,
            parent,
            name@,
            match kind {
                EntryType::File => FileType::File,
                EntryType::Directory => FileType::Dir,
            },
            ino,
        ) && (kind == EntryType::File ==> {
            let m = end.0.files[ino];
            &&& m.size == 0 && m.nlink == 1
            &&& m.permission.mode == 0o644 && m.permission.uid == 0 && m.permission.gid == 0
            &&& m.access_time == now && m.modify_time == now && m.create_time == now
        }) && (kind == EntryType::Directory ==> is_standard_dir(end.0.dirs[ino], ino, now))),
{
    law_create_node_runs(t, parent, name, kind, now, trace, end);
    if let Ok(ino) = end.1 {
        let t2 = end.0;
        assert(t2.entries.dom() =~= t.entries.dom().insert(ino));
        assert(kind == EntryType::File ==> t2.files.dom() =~= t.files.dom().insert(ino));
        assert(kind == EntryType::Directory ==> t2.dirs.dom() =~= t.dirs.dom().insert(ino));
    }
}

/// Whether a row is that of a new directory with standard permissions.
pub open spec fn is_standard_dir(m: AccessMetaModel, ino: i64, now: i64) -> bool {
    &&& m.inode == ino
    &&& m.nlink == 2
    &&& m.permission.mode == 0o40755
    &&& m.permission.uid == 0
    &&& m.permission.gid == 0
    &&& m.access_time == now
    &&& m.modify_time == now
    &&& m.create_time == now
}

/// The root is prepared as a directory with standard permissions under the number one, and one
/// that is there is left; nothing else changes.
pub proof fn law_root_is_prepared_once(
    t: Tables,
    now: i64,
    trace: Seq<(DbReply, Database)>,
    end: (Tables, Result<(), ErrorView>),
)
    requires
        db_runs::<InitRoot>(true, InitRoot { now, missing: false }, at_rest(t), trace, end),
    ensures
        end.1 is Ok,
        end.0.files == t.files,
        end.0.entries == t.entries,
        t.dirs.dom().contains(1) ==> end.0.dirs == t.dirs,
        !t.dirs.dom().contains(1) ==> end.0.dirs.dom() == t.dirs.dom().insert(1)
            && is_standard_dir(end.0.dirs[1], 1, now) && forall|i: i64|
            t.dirs.dom().contains(i) ==> #[trigger] end.0.dirs[i] == t.dirs[i],
{
    law_init_root_runs(t, now, trace, end);
    assert(!t.dirs.dom().contains(1) ==> end.0.dirs.dom() =~= t.dirs.dom().insert(1));
}

} // verus!
