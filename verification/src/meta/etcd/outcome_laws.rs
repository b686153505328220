//! What the operations on the key-value service are for, told by what goes in and what comes out.

use crate::meta::entities::{EntryType, EtcdEntryInfo};
use crate::meta::etcd::atomic_laws::{
    a_move, creation, is_parent, law_create_node_runs, law_remove_node_runs, law_rename_node_runs,
    names_of, removal, well_kept,
};
use crate::meta::etcd::atomic_reads::{SetFileSize, Stat};
use crate::meta::etcd::atomic_read_laws::{law_node_stat_runs, law_set_file_size_runs};
use crate::meta::etcd::atomic_store::{CreateNode, RemoveNode, RenameNode};
use crate::meta::etcd::kv::{runs, KeyView, Kv, Meaning, Operation, Reply};
use crate::meta::etcd::laws::{
    law_create_runs, law_getattr_runs, law_lookup_runs, law_rename_runs, law_rmdir_runs,
    law_setattr_runs, law_unlink_runs, names_in, sane,
};
use crate::meta::etcd::plain_nodes::{law_plain_create_runs, PlainCreate, PlainState};
use crate::meta::etcd::store::{
    root_attr, Create, CreatePhase, Getattr, Lookup, Rename, RenamePhase, Rmdir, RmdirPhase,
    Setattr, SetattrPhase, Unlink, UnlinkPhase,
};
use crate::meta::store::{ErrorView, FileAttr, FileType};
use crate::meta::types::{CreateParams, Inode, SetAttrMask};
use vstd::prelude::*;

verus! {

/// Whether attributes are those that the metadata of an inode hold: its kind, owner, mode and
/// times, for a file its size and the least number of blocks of 512 bytes that hold it, for a
/// directory the size of one page.
pub open spec fn of_info(info: EtcdEntryInfo, ino: i64, a: FileAttr) -> bool {
    &&& a.ino == ino
    &&& a.kind == FileType::File <==> info.is_file
    &&& info.is_file ==> a.size == (match info.size {
        Some(size) => size as u64,
        None => 0u64,
    }) && 512 * a.blocks >= a.size && 512 * a.blocks < a.size + 512
    &&& !info.is_file ==> a.size == 4096 && a.blocks == 8
    &&& a.mode == info.permission.mode
    &&& a.uid == info.permission.uid
    &&& a.gid == info.permission.gid
    &&& a.atime == info.access_time
    &&& a.mtime == info.modify_time
    &&& a.ctime == info.create_time
    &&& a.nlink == info.nlink
    &&& a.blksize == 4096
    &&& a.rdev == 0
}

/// What the metadata of an inode are.
pub open spec fn info_of(kv: Kv, ino: i64) -> Option<EtcdEntryInfo> {
    match kv.get(KeyView::Entry(ino)) {
        Some(Meaning::Entry(info)) => Some(info),
        _ => None,
    }
}

/// The root is told as a directory under the number one, with the time of the question.
pub proof fn law_root_is_a_directory(now: i64)
    ensures
        root_attr(now).ino == 1,
        root_attr(now).kind == FileType::Dir,
        root_attr(now).size == 4096,
        root_attr(now).blocks == 8,
        root_attr(now).mode == 0o755,
        root_attr(now).uid == 0,
        root_attr(now).gid == 0,
        root_attr(now).atime == now,
        root_attr(now).mtime == now,
        root_attr(now).ctime == now,
        root_attr(now).nlink == 2,
{
}

/// Attributes are read from the metadata of the inode, and an inode without metadata has none.
pub proof fn law_attributes_are_those_of_the_metadata(
    kv: Kv,
    ino: i64,
    trace: Seq<(Reply, Kv)>,
    end: (Kv, Result<FileAttr, ErrorView>),
)
    requires
        sane(kv),
        runs::<Getattr>(Getattr { ino: Inode(ino) }, kv, trace, end),
    ensures
        end.0 == kv,
        match info_of(kv, ino) {
            Some(info) => end.1 matches Ok(a) && of_info(info, ino, a),
            None => end.1 == Err::<FileAttr, ErrorView>(ErrorView::NotFound(ino)),
        },
{
    law_getattr_runs(kv, ino, trace, end);
}

/// A look-up finds what the name stands for, and nothing where it stands for nothing.
pub proof fn law_lookup_finds_what_stands_there(
    kv: Kv,
    parent: i64,
    name: String,
    trace: Seq<(Reply, Kv)>,
    end: (Kv, Result<Inode, ErrorView>),
)
    requires
        sane(kv),
        runs::<Lookup>(Lookup { parent: Inode(parent), name }, kv, trace, end),
    ensures
        end.0 == kv,
        match end.1 {
            Ok(ino) => kv.get(KeyView::Forward(parent, name@)) matches Some(
                Meaning::Forward { inode, .. },
            ) && inode == ino.0,
            Err(e) => e == ErrorView::NotFound(parent) && kv.get(KeyView::Forward(parent, name@))
                is None,
        },
{
    law_lookup_runs(kv, parent, name, trace, end);
    let k = KeyView::Forward(parent, name@);
    assert(kv.map.dom().contains(k) ==> kv.map[k].0 is Forward);
}

/// Whether two states of the service hold the same under every key but some.
pub open spec fn same_but(kv: Kv, kv2: Kv, keys: Set<KeyView>) -> bool {
    forall|k: KeyView| !keys.contains(k) ==> #[trigger] kv2.get(k) == kv.get(k)
}

/// A creation in a directory, under a name that is free there, makes what the parameters say under
/// the number that it was given: of their kind, owner and group, with their mode, to which a
/// directory adds the directory bit, without bytes, and with the time of the creation. The name
/// stands for it and is listed, a directory lists nothing, and nothing else changes. Otherwise
/// nothing is made, and the error says why.
pub proof fn law_creation_makes_what_is_asked(
    kv: Kv,
    params: CreateParams,
    now: i64,
    trace: Seq<(Reply, Kv)>,
    end: (Kv, Result<(Inode, FileAttr), ErrorView>),
)
    requires
        sane(kv),
        runs::<Create>(
            Create { params, now, retry: 0, phase: CreatePhase::Parent },
            kv,
            trace,
            end,
        ),
        end.1 matches Ok(made) ==> made.0 != params.parent,
    ensures
        ({
            let parent = params.parent.0;
            let listed = kv.get(KeyView::Children(parent)) is Some;
            let taken = kv.get(KeyView::Forward(parent, params.name@)) is Some;
            &&& !listed ==> end == (
                kv,
                Err::<(Inode, FileAttr), ErrorView>(ErrorView::ParentNotFound(parent)),
            )
            &&& listed && taken ==> end == (
                kv,
                Err::<(Inode, FileAttr), ErrorView>(
                    ErrorView::AlreadyExists { parent, name: params.name@ },
                ),
            )
            &&& listed && !taken ==> end.1 is Ok
        }),
        end.1 matches Ok(made) ==> {
            let parent = params.parent.0;
            let ino = made.0.0;
            let a = made.1;
            &&& a.ino == ino && a.kind == params.kind && a.uid == params.uid && a.gid == params.gid
            &&& params.kind == FileType::File ==> a.mode == params.mode && a.size == 0 && a.blocks
                == 0 && a.nlink == 1
            &&& params.kind == FileType::Dir ==> a.mode == params.mode | 0o40000 && a.nlink == 2
            &&& a.atime == now && a.mtime == now && a.ctime == now
            &&& info_of(end.0, ino) matches Some(info) && of_info(info, ino, a)
            &&& end.0.get(KeyView::Forward(parent, params.name@)) == Some(
                Meaning::Forward {
                    parent,
                    name: params.name@,
                    inode: ino,
                    is_file: params.kind == FileType::File,
                },
            )
            &&& names_in(end.0, parent) == names_in(kv, parent).insert(params.name@)
            &&& params.kind == FileType::Dir ==> end.0.get(KeyView::Children(ino)) is Some
                && names_in(end.0, ino) == Set::<Seq<char>>::empty()
            &&& same_but(
                kv,
                end.0,
                set![
                    KeyView::Entry(ino),
                    KeyView::Forward(parent, params.name@),
                    KeyView::Children(parent),
                    KeyView::Children(ino),
                ],
            )
        },
{
    law_create_runs(kv, params, now, trace, end);
    let k = KeyView::Children(params.parent.0);
    assert(kv.map.dom().contains(k) ==> kv.map[k].0 is Children);
}

/// An update sets what the mask names in the metadata of the inode, keeps the rest of them, and
/// leaves every other key; a directory keeps its bit.
pub proof fn law_update_sets_the_metadata(
    kv: Kv,
    ino: i64,
    mask: SetAttrMask,
    now: i64,
    trace: Seq<(Reply, Kv)>,
    end: (Kv, Result<FileAttr, ErrorView>),
)
    requires
        sane(kv),
        runs::<Setattr>(
            Setattr { ino: Inode(ino), mask, now, phase: SetattrPhase::Read },
            kv,
            trace,
            end,
        ),
    ensures
        info_of(kv, ino) is None ==> end == (
            kv,
            Err::<FileAttr, ErrorView>(ErrorView::NotFound(ino)),
        ),
        info_of(kv, ino) matches Some(m) ==> {
            let n = info_of(end.0, ino)->0;
            &&& end.1 is Ok
            &&& info_of(end.0, ino) is Some
            &&& ino != 1 ==> of_info(n, ino, end.1->Ok_0)
            &&& same_but(kv, end.0, set![KeyView::Entry(ino)])
            &&& n.is_file == m.is_file && n.version == m.version && n.nlink == m.nlink
                && n.create_time == m.create_time
            &&& mask.size matches Some(size) ==> (n.size matches Some(kept) && kept as u64 == size)
            &&& mask.size is None ==> n.size == m.size
            &&& n.permission.mode == (match mask.mode {
                Some(mode) => if m.is_file {
                    mode
                } else {
                    mode | 0o40000
                },
                None => m.permission.mode,
            })
            &&& n.permission.uid == (if mask.uid is Some {
                mask.uid->0
            } else {
                m.permission.uid
            })
            &&& n.permission.gid == (if mask.gid is Some {
                mask.gid->0
            } else {
                m.permission.gid
            })
            &&& n.access_time == (if mask.atime is Some {
                mask.atime->0
            } else {
                m.access_time
            })
            &&& n.modify_time == (if mask.mtime is Some {
                mask.mtime->0
            } else {
                m.modify_time
            })
        },
{
    law_setattr_runs(kv, ino, mask, now, trace, end);
    let k = KeyView::Entry(ino);
    assert(kv.map.dom().contains(k) ==> kv.map[k].0 is Entry);
    if let Some(size) = mask.size {
        assert((size as i64) as u64 == size) by (bit_vector);
    }
}

/// A move lets the new name stand for what the old one stood for, takes the old name out of its
/// directory and lists the new one in its own, and leaves the metadata and every other key.
pub proof fn law_move_takes_the_inode_along(
    kv: Kv,
    old_parent: i64,
    old_name: String,
    new_parent: i64,
    new_name: String,
    trace: Seq<(Reply, Kv)>,
    end: (Kv, Result<(), ErrorView>),
)
    requires
        sane(kv),
        runs::<Rename>(
            Rename {
                old_parent: Inode(old_parent),
                old_name,
                new_parent: Inode(new_parent),
                new_name,
                retry: 0,
                phase: RenamePhase::Source,
            },
            kv,
            trace,
            end,
        ),
    ensures
        kv.get(KeyView::Forward(old_parent, old_name@)) is None ==> end == (
            kv,
            Err::<(), ErrorView>(ErrorView::NotFound(old_parent)),
        ),
        kv.get(KeyView::Forward(old_parent, old_name@)) is Some && kv.get(
            KeyView::Children(new_parent),
        ) is None ==> end == (kv, Err::<(), ErrorView>(ErrorView::ParentNotFound(new_parent))),
        kv.get(KeyView::Forward(old_parent, old_name@)) matches Some(
            Meaning::Forward { inode, is_file, .. },
        ) ==> (kv.get(KeyView::Children(new_parent)) is Some ==> {
            &&& end.1 is Ok
            &&& end.0.get(KeyView::Forward(new_parent, new_name@)) == Some(
                Meaning::Forward { parent: new_parent, name: new_name@, inode, is_file },
            )
            &&& (old_parent, old_name@) != (new_parent, new_name@) ==> end.0.get(
                KeyView::Forward(old_parent, old_name@),
            ) is None && !names_in(end.0, old_parent).contains(old_name@)
            &&& names_in(end.0, new_parent).contains(new_name@)
            &&& forall|d: i64, n: Seq<char>|
                !(d == old_parent && n == old_name@) && !(d == new_parent && n == new_name@) ==> (
                #[trigger] names_in(end.0, d).contains(n) <==> names_in(kv, d).contains(n))
            &&& same_but(
                kv,
                end.0,
                set![
                    KeyView::Forward(old_parent, old_name@),
                    KeyView::Forward(new_parent, new_name@),
                    KeyView::Children(old_parent),
                    KeyView::Children(new_parent),
                ],
            )
        }),
{
    law_rename_runs(kv, old_parent, old_name, new_parent, new_name, trace, end);
    let k = KeyView::Forward(old_parent, old_name@);
    let d = KeyView::Children(new_parent);
    let o = KeyView::Children(old_parent);
    assert(kv.map.dom().contains(k) ==> kv.map[k].0 is Forward);
    assert(kv.map.dom().contains(d) ==> kv.map[d].0 is Children);
    assert(kv.map.dom().contains(o) ==> kv.map[o].0 is Children);
}

/// A removal of a file takes its name and its metadata away, and its name out of the directory; a
/// directory under the name, or nothing there, leaves everything.
pub proof fn law_unlink_takes_the_file_away(
    kv: Kv,
    parent: i64,
    name: String,
    trace: Seq<(Reply, Kv)>,
    end: (Kv, Result<(), ErrorView>),
)
    requires
        sane(kv),
        runs::<Unlink>(
            Unlink { parent: Inode(parent), name, retry: 0, phase: UnlinkPhase::Source },
            kv,
            trace,
            end,
        ),
    ensures
        match kv.get(KeyView::Forward(parent, name@)) {
            Some(Meaning::Forward { inode, is_file: true, .. }) => {
                &&& end.1 is Ok
                &&& end.0.get(KeyView::Forward(parent, name@)) is None
                &&& end.0.get(KeyView::Entry(inode)) is None
                &&& names_in(end.0, parent) == names_in(kv, parent).remove(name@)
                &&& same_but(
                    kv,
                    end.0,
                    set![
                        KeyView::Forward(parent, name@),
                        KeyView::Entry(inode),
                        KeyView::Children(parent),
                    ],
                )
            },
            Some(_) => end == (
                kv,
                Err::<(), ErrorView>(ErrorView::Internal("Cannot unlink directory, use rmdir"@)),
            ),
            None => end == (kv, Err::<(), ErrorView>(ErrorView::NotFound(parent))),
        },
{
    law_unlink_runs(kv, parent, name, trace, end);
    let k = KeyView::Forward(parent, name@);
    let d = KeyView::Children(parent);
    assert(kv.map.dom().contains(k) ==> kv.map[k].0 is Forward);
    assert(kv.map.dom().contains(d) ==> kv.map[d].0 is Children);
    assert(names_in(end.0, parent) =~= names_in(end.0, parent));
    if !kv.map.dom().contains(d) {
        assert(Set::<Seq<char>>::empty().remove(name@) =~= Set::empty());
    }
}

/// A removal of a directory that lists nothing takes its name, its metadata and its listing away,
/// and its name out of the directory above; one that lists something, a file under the name, or
/// nothing there leaves everything.
pub proof fn law_rmdir_takes_the_directory_away(
    kv: Kv,
    parent: i64,
    name: String,
    trace: Seq<(Reply, Kv)>,
    end: (Kv, Result<(), ErrorView>),
)
    requires
        sane(kv),
        runs::<Rmdir>(
            Rmdir { parent: Inode(parent), name, retry: 0, phase: RmdirPhase::Source },
            kv,
            trace,
            end,
        ),
    ensures
        match kv.get(KeyView::Forward(parent, name@)) {
            Some(Meaning::Forward { inode, is_file: false, .. }) => if names_in(kv, inode)
                != Set::<Seq<char>>::empty() {
                end == (kv, Err::<(), ErrorView>(ErrorView::DirectoryNotEmpty(inode)))
            } else {
                &&& end.1 is Ok
                &&& end.0.get(KeyView::Forward(parent, name@)) is None
                &&& end.0.get(KeyView::Entry(inode)) is None
                &&& end.0.get(KeyView::Children(inode)) is None
                &&& inode != parent ==> names_in(end.0, parent) == names_in(kv, parent).remove(
                    name@,
                )
                &&& same_but(
                    kv,
                    end.0,
                    set![
                        KeyView::Forward(parent, name@),
                        KeyView::Entry(inode),
                        KeyView::Children(parent),
                        KeyView::Children(inode),
                    ],
                )
            },
            Some(Meaning::Forward { inode, .. }) => end == (
                kv,
                Err::<(), ErrorView>(ErrorView::NotDirectory(inode)),
            ),
            _ => end == (kv, Err::<(), ErrorView>(ErrorView::NotFound(parent))),
        },
{
    law_rmdir_runs(kv, parent, name, trace, end);
    let k = KeyView::Forward(parent, name@);
    let d = KeyView::Children(parent);
    assert(kv.map.dom().contains(k) ==> kv.map[k].0 is Forward);
    assert(kv.map.dom().contains(d) ==> kv.map[d].0 is Children);
    if let Some(Meaning::Forward { inode, .. }) = kv.get(k) {
        let own = KeyView::Children(inode);
        assert(kv.map.dom().contains(own) ==> kv.map[own].0 is Children);
    }
    if !kv.map.dom().contains(d) {
        assert(Set::<Seq<char>>::empty().remove(name@) =~= Set::empty());
    }
}

/// Whether metadata are those of a new node with standard permissions: a file without bytes that
/// everyone may read, or a directory that everyone may enter, of user zero and group zero, with
/// the time of the creation.
pub open spec fn is_standard(info: EtcdEntryInfo, is_file: bool, now: i64) -> bool {
    &&& info.is_file == is_file
    &&& is_file ==> info.size == Some(0i64) && info.permission.mode == 0o644 && info.nlink == 1
    &&& !is_file ==> info.size is None && info.permission.mode == 0o40755 && info.nlink == 2
    &&& info.permission.uid == 0
    &&& info.permission.gid == 0
    &&& info.access_time == now
    &&& info.modify_time == now
    &&& info.create_time == now
}

/// A node that is made with all its keys in one transaction stands under its name in a directory,
/// with standard permissions and its place in its metadata, and is listed there; a new directory
/// lists nothing, and nothing else changes. A parent that is none, or a name that is taken, leaves
/// everything.
pub proof fn law_node_is_made_as_asked(
    kv: Kv,
    parent: i64,
    name: String,
    is_file: bool,
    now: i64,
    trace: Seq<(Reply, Kv)>,
    end: (Kv, Result<i64, ErrorView>),
)
    requires
        well_kept(kv),
        runs::<CreateNode>(creation(parent, name, is_file, now), kv, trace, end),
        end.1 matches Ok(ino) ==> ino != parent,
    ensures
        !is_parent(kv, parent) ==> end == (
            kv,
            Err::<i64, ErrorView>(ErrorView::ParentNotFound(parent)),
        ),
        is_parent(kv, parent) && kv.get(KeyView::Forward(parent, name@)) is Some ==> end == (
            kv,
            Err::<i64, ErrorView>(ErrorView::AlreadyExists { parent, name: name@ }),
        ),
        is_parent(kv, parent) && kv.get(KeyView::Forward(parent, name@)) is None ==> (
        end.1 matches Ok(ino) && {
            &&& end.0.get(KeyView::Forward(parent, name@)) == Some(
                Meaning::Forward { parent, name: name@, inode: ino, is_file },
            )
            &&& end.0.get(KeyView::Entry(ino)) matches Some(
                Meaning::Placed { info, parent: p, name: n },
            ) && is_standard(info, is_file, now) && p == parent && n == name@
            &&& names_of(end.0, parent) == names_of(kv, parent).insert(name@)
            &&& !is_file ==> end.0.get(KeyView::Children(ino)) is Some && names_of(end.0, ino)
                == Set::<Seq<char>>::empty()
            &&& same_but(
                kv,
                end.0,
                set![
                    KeyView::Entry(ino),
                    KeyView::Forward(parent, name@),
                    KeyView::Children(parent),
                    KeyView::Children(ino),
                ],
            )
        }),
{
    law_create_node_runs(kv, parent, name, is_file, now, trace, end);
}

/// A node that is removed with all its keys in one transaction is gone: its name, its metadata,
/// its place in the listing and, for a directory, its own listing; nothing else changes. A node of
/// the other kind, a directory that lists something, or nothing there leaves everything.
pub proof fn law_node_is_removed_whole(
    kv: Kv,
    parent: i64,
    name: String,
    directory: bool,
    trace: Seq<(Reply, Kv)>,
    end: (Kv, Result<(), ErrorView>),
)
    requires
        well_kept(kv),
        runs::<RemoveNode>(removal(parent, name, directory), kv, trace, end),
        kv.get(KeyView::Forward(parent, name@)) matches Some(Meaning::Forward { inode, .. })
            ==> inode != parent,
    ensures
        end.1 is Ok <==> (kv.get(KeyView::Forward(parent, name@)) matches Some(
            Meaning::Forward { inode, is_file, .. },
        ) && is_file != directory && (directory ==> names_of(kv, inode)
            == Set::<Seq<char>>::empty())),
        end.1 is Err ==> end.0 == kv,
        kv.get(KeyView::Forward(parent, name@)) is None ==> end.1 == Err::<(), ErrorView>(
            ErrorView::NotFound(parent),
        ),
        kv.get(KeyView::Forward(parent, name@)) matches Some(
            Meaning::Forward { inode, is_file: false, .. },
        ) ==> (directory && names_of(kv, inode) != Set::<Seq<char>>::empty() ==> end.1 == Err::<
            (),
            ErrorView,
        >(ErrorView::DirectoryNotEmpty(inode))),
        end.1 is Ok ==> (kv.get(KeyView::Forward(parent, name@)) matches Some(
            Meaning::Forward { inode, .. },
        ) && {
            &&& end.0.get(KeyView::Forward(parent, name@)) is None
            &&& end.0.get(KeyView::Entry(inode)) is None
            &&& directory ==> end.0.get(KeyView::Children(inode)) is None
            &&& names_of(end.0, parent) == names_of(kv, parent).remove(name@)
            &&& same_but(
                kv,
                end.0,
                set![
                    KeyView::Entry(inode),
                    KeyView::Forward(parent, name@),
                    KeyView::Children(parent),
                    KeyView::Children(inode),
                ],
            )
        }),
{
    law_remove_node_runs(kv, parent, name, directory, trace, end);
    let k = KeyView::Forward(parent, name@);
    assert(kv.map.dom().contains(k) ==> kv.map[k].0 is Forward);
}

/// A node that is moved with all its keys in one transaction stands under the new name and no more
/// under the old one, with the new place and the time of the move in its metadata, which are
/// otherwise the same; both listings say so, and nothing else changes. A name that is taken is not
/// replaced.
pub proof fn law_node_is_moved_whole(
    kv: Kv,
    old_parent: i64,
    old_name: String,
    new_parent: i64,
    new_name: String,
    now: i64,
    trace: Seq<(Reply, Kv)>,
    end: (Kv, Result<(), ErrorView>),
)
    requires
        well_kept(kv),
        runs::<RenameNode>(
            a_move(old_parent, old_name, new_parent, new_name, now),
            kv,
            trace,
            end,
        ),
    ensures
        end.1 is Err ==> end.0 == kv,
        kv.get(KeyView::Forward(old_parent, old_name@)) is None ==> end.1 == Err::<(), ErrorView>(
            ErrorView::NotFound(old_parent),
        ),
        kv.get(KeyView::Forward(new_parent, new_name@)) is Some ==> end.1 is Err,
        kv.get(KeyView::Forward(old_parent, old_name@)) matches Some(
            Meaning::Forward { inode, is_file, .. },
        ) ==> (kv.get(KeyView::Entry(inode)) is Some && kv.get(
            KeyView::Forward(new_parent, new_name@),
        ) is None ==> {
            &&& end.1 is Ok
            &&& end.0.get(KeyView::Forward(new_parent, new_name@)) == Some(
                Meaning::Forward { parent: new_parent, name: new_name@, inode, is_file },
            )
            &&& end.0.get(KeyView::Forward(old_parent, old_name@)) is None
            &&& kv.get(KeyView::Entry(inode)) matches Some(Meaning::Placed { info, .. })
                && end.0.get(KeyView::Entry(inode)) == Some(
                Meaning::Placed {
                    info: EtcdEntryInfo { modify_time: now, ..info },
                    parent: new_parent,
                    name: new_name@,
                },
            )
            &&& names_of(end.0, new_parent).contains(new_name@)
            &&& !names_of(end.0, old_parent).contains(old_name@)
            &&& forall|d: i64, n: Seq<char>|
                !(d == old_parent && n == old_name@) && !(d == new_parent && n == new_name@) ==> (
                #[trigger] names_of(end.0, d).contains(n) <==> names_of(kv, d).contains(n))
            &&& same_but(
                kv,
                end.0,
                set![
                    KeyView::Entry(inode),
                    KeyView::Forward(old_parent, old_name@),
                    KeyView::Forward(new_parent, new_name@),
                    KeyView::Children(old_parent),
                    KeyView::Children(new_parent),
                ],
            )
        }),
{
    law_rename_node_runs(kv, old_parent, old_name, new_parent, new_name, now, trace, end);
    let k = KeyView::Forward(old_parent, old_name@);
    assert(kv.map.dom().contains(k) ==> kv.map[k].0 is Forward);
    let o = KeyView::Children(old_parent);
    let n = KeyView::Children(new_parent);
    assert(kv.map.dom().contains(o) ==> kv.map[o].0 is Children);
    assert(kv.map.dom().contains(n) ==> kv.map[n].0 is Children);
    if let Some(Meaning::Forward { inode, .. }) = kv.get(k) {
        let e = KeyView::Entry(inode);
        assert(kv.map.dom().contains(e) ==> kv.map[e].0 is Placed);
    }
}

/// A node that is made by the plain creation stands under its name, with standard permissions, and
/// is listed; nothing else changes.
pub proof fn law_plain_node_is_made_as_asked(
    kv: Kv,
    parent: i64,
    name: Seq<char>,
    kind: EntryType,
    now: i64,
    trace: Seq<(Reply, Kv)>,
    end: (Kv, Result<i64, ErrorView>),
)
    requires
        sane(kv),
        runs::<PlainCreate>(
            PlainState { parent, name, kind, now, retry: 0, at: PlainState::first(parent) },
            kv,
            trace,
            end,
        ),
        end.1 matches Ok(ino) ==> ino != parent,
    ensures
        end.1 matches Ok(ino) ==> {
            &&& end.0.get(KeyView::Forward(parent, name)) == Some(
                Meaning::Forward { parent, name, inode: ino, is_file: kind == EntryType::File },
            )
            &&& info_of(end.0, ino) matches Some(info) && is_standard(
                info,
                kind == EntryType::File,
                now,
            )
            &&& names_in(end.0, parent) == names_in(kv, parent).insert(name)
            &&& kind == EntryType::Directory ==> end.0.get(KeyView::Children(ino)) is Some
                && names_in(end.0, ino) == Set::<Seq<char>>::empty()
            &&& same_but(
                kv,
                end.0,
                set![
                    KeyView::Entry(ino),
                    KeyView::Forward(parent, name),
                    KeyView::Children(parent),
                    KeyView::Children(ino),
                ],
            )
        },
        end.1 is Err ==> end.0 == kv,
        parent == 1 && kv.get(KeyView::Forward(parent, name)) is None ==> end.1 is Ok,
{
    law_plain_create_runs(kv, parent, name, kind, now, trace, end);
    let k = KeyView::Children(parent);
    assert(kv.map.dom().contains(k) ==> kv.map[k].0 is Children);
}

/// The attributes of a node are those of its metadata, those of the root are fixed, and an inode
/// without metadata has none.
pub proof fn law_node_attributes_are_those_of_the_metadata(
    kv: Kv,
    ino: i64,
    now: i64,
    trace: Seq<(Reply, Kv)>,
    end: (Kv, Result<Option<FileAttr>, ErrorView>),
)
    requires
        well_kept(kv),
        runs::<Stat>(Stat { ino, now, as_dir: false }, kv, trace, end),
    ensures
        end.0 == kv,
        match kv.get(KeyView::Entry(ino)) {
            Some(Meaning::Placed { info, .. }) => info.nlink <= i32::MAX && (ino != 1
                || info.is_file) ==> (end.1 matches Ok(Some(a)) && of_info(info, ino, a)),
            _ => if ino == 1 {
                end.1 matches Ok(Some(a)) && a.ino == 1 && a.kind == FileType::Dir && a.size == 4096
                    && a.mode == 0o40755 && a.uid == 0 && a.gid == 0 && a.nlink == 2 && a.atime
                    == now && a.mtime == now && a.ctime == now
            } else {
                end.1 == Ok::<Option<FileAttr>, ErrorView>(None)
            },
        },
{
    law_node_stat_runs(kv, ino, now, trace, end);
}

/// A size is set for a file alone: the file then has it, and the time of the update, and nothing
/// else changes.
pub proof fn law_file_has_the_size_that_was_set(
    kv: Kv,
    ino: i64,
    size: u64,
    now: i64,
    trace: Seq<(Reply, Kv)>,
    end: (Kv, Result<(), ErrorView>),
)
    requires
        well_kept(kv),
        runs::<SetFileSize>(SetFileSize { ino, size, now, entry: None }, kv, trace, end),
    ensures
        match kv.get(KeyView::Entry(ino)) {
            Some(Meaning::Placed { info, parent, name }) => if info.is_file {
                end.1 is Ok && same_but(kv, end.0, set![KeyView::Entry(ino)]) && (end.0.get(
                    KeyView::Entry(ino),
                ) matches Some(Meaning::Placed { info: n, parent: p, name: m }) && p == parent && m
                    == name && n.modify_time == now && (n.size matches Some(kept) && kept as u64
                    == size) && n == (EtcdEntryInfo { size: n.size, modify_time: now, ..info }))
            } else {
                end.0 == kv && end.1 is Err
            },
            _ => end == (kv, Err::<(), ErrorView>(ErrorView::NotFound(ino))),
        },
{
    law_set_file_size_runs(kv, ino, size, now, trace, end);
    assert((size as i64) as u64 == size) by (bit_vector);
    let k = KeyView::Entry(ino);
    assert(kv.map.dom().contains(k) ==> kv.map[k].0 is Placed);
}

} // verus!
