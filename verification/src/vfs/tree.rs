//! A tree of files and directories, and what the operations make of it.

use crate::meta::store::{DirEntry, FileAttr, FileType};
use crate::meta::types::Inode;
use crate::text::components;
use crate::vfs::error::VfsErrorView;
use crate::vfs::op::{FsOperation, FsReply, FsRequestView, FsStepView};
use crate::vfs::path::{
    are_names, law_normal_form, law_path_of_names_reads_back, lemma_components_are_names, normal,
};
use crate::vfs::walk::{MkdirP, MkdirPhase, MkdirState, Resolve, ResolveState};
use vstd::prelude::*;

verus! {

/// A tree: the kind and the size of each inode, and what each name in a directory stands for.
pub struct Tree {
    pub root: i64,
    pub kinds: Map<i64, FileType>,
    pub sizes: Map<i64, u64>,
    pub names: Map<(i64, Seq<char>), i64>,
    /// The bytes of the files, by inode and place. What was never written is zero.
    pub bytes: Map<(i64, int), u8>,
}

/// The bytes once some were written to a file from an offset on.
pub open spec fn written(
    bytes: Map<(i64, int), u8>,
    ino: i64,
    offset: int,
    data: Seq<u8>,
) -> Map<(i64, int), u8>
    decreases data.len(),
{
    if data.len() == 0 {
        bytes
    } else {
        written(bytes, ino, offset, data.drop_last()).insert(
            (ino, offset + data.len() - 1),
            data.last(),
        )
    }
}

impl Tree {
    /// A byte of a file.
    pub open spec fn byte(self, ino: i64, at: int) -> u8 {
        if self.bytes.dom().contains((ino, at)) {
            self.bytes[(ino, at)]
        } else {
            0
        }
    }

    /// The bytes of a file from an offset on.
    pub open spec fn part(self, ino: i64, offset: int, len: nat) -> Seq<u8> {
        Seq::new(len, |k: int| self.byte(ino, offset + k))
    }

    /// What a name in a directory stands for.
    pub open spec fn child(self, dir: i64, name: Seq<char>) -> Option<i64> {
        if self.names.dom().contains((dir, name)) {
            Some(self.names[(dir, name)])
        } else {
            None
        }
    }

    /// Where names lead from the root.
    pub open spec fn walk(self, parts: Seq<Seq<char>>) -> Option<i64>
        decreases parts.len(),
    {
        if parts.len() == 0 {
            Some(self.root)
        } else {
            match self.walk(parts.drop_last()) {
                Some(dir) => self.child(dir, parts.last()),
                None => None,
            }
        }
    }

    /// Whether an inode is of a kind.
    pub open spec fn is(self, ino: i64, kind: FileType) -> bool {
        self.kinds.dom().contains(ino) && self.kinds[ino] == kind
    }

    /// Whether a directory has entries.
    pub open spec fn has_entries(self, dir: i64) -> bool {
        exists|name: Seq<char>| #[trigger] self.names.dom().contains((dir, name))
    }

    /// What holds of a tree: the root is a directory and stands in none; a name stands in a
    /// directory and for an inode; and an inode stands under one name.
    pub open spec fn sound(self) -> bool {
        &&& self.is(self.root, FileType::Dir)
        &&& forall|at: (i64, Seq<char>)| #[trigger]
            self.names.dom().contains(at) ==> self.is(at.0, FileType::Dir)
                && self.kinds.dom().contains(self.names[at]) && self.names[at] != self.root
        &&& forall|a: (i64, Seq<char>), b: (i64, Seq<char>)| #[trigger]
            self.names.dom().contains(a) && #[trigger] self.names.dom().contains(b)
                && self.names[a] == self.names[b] ==> a == b
        &&& self.sizes.dom() == self.kinds.dom()
    }

    /// With a new inode under a name.
    pub open spec fn with(self, dir: i64, name: Seq<char>, ino: i64, kind: FileType) -> Tree {
        Tree {
            kinds: self.kinds.insert(ino, kind),
            sizes: self.sizes.insert(ino, 0),
            names: self.names.insert((dir, name), ino),
            ..self
        }
    }

    /// Without a name and what it stands for.
    pub open spec fn without(self, dir: i64, name: Seq<char>) -> Tree {
        Tree {
            kinds: self.kinds.remove(self.names[(dir, name)]),
            sizes: self.sizes.remove(self.names[(dir, name)]),
            names: self.names.remove((dir, name)),
            ..self
        }
    }

    /// With a name moved.
    pub open spec fn moved(
        self,
        old_dir: i64,
        old_name: Seq<char>,
        new_dir: i64,
        new_name: Seq<char>,
    ) -> Tree {
        Tree {
            names: self.names.remove((old_dir, old_name)).insert(
                (new_dir, new_name),
                self.names[(old_dir, old_name)],
            ),
            ..self
        }
    }

    /// With another size of a file. A directory has no size to set.
    pub open spec fn resized(self, ino: i64, size: u64) -> Tree {
        if self.is(ino, FileType::File) {
            Tree { sizes: self.sizes.insert(ino, size), ..self }
        } else {
            self
        }
    }

    /// Whether all of this tree is in another.
    pub open spec fn within(self, other: Tree) -> bool {
        &&& other.root == self.root
        &&& other.bytes == self.bytes
        &&& forall|ino: i64| #[trigger]
            self.kinds.dom().contains(ino) ==> other.kinds.dom().contains(ino) && other.kinds[ino]
                == self.kinds[ino]
        &&& forall|ino: i64| #[trigger]
            self.sizes.dom().contains(ino) ==> other.sizes.dom().contains(ino) && other.sizes[ino]
                == self.sizes[ino]
        &&& forall|at: (i64, Seq<char>)| #[trigger]
            self.names.dom().contains(at) ==> other.names.dom().contains(at) && other.names[at]
                == self.names[at]
    }
}

/// Whether what is new in a tree are new directories on a path.
pub open spec fn grown_along(t: Tree, t2: Tree, parts: Seq<Seq<char>>) -> bool {
    &&& t.within(t2)
    &&& forall|at: (i64, Seq<char>)| #[trigger]
        t2.names.dom().contains(at) && !t.names.dom().contains(at) ==> t2.is(
            t2.names[at],
            FileType::Dir,
        ) && !t.kinds.dom().contains(t2.names[at]) && exists|i: int|
            0 <= i < parts.len() && t2.walk(#[trigger] parts.take(i)) == Some(at.0) && parts[i]
                == at.1
    &&& t2.walk(parts) is Some
}

/// Whether a path that is not there cannot be made, since a file is in the way.
pub open spec fn blocked(t: Tree, parts: Seq<Seq<char>>) -> bool {
    t.walk(parts) is None && exists|i: int|
        0 < i <= parts.len() && (t.walk(#[trigger] parts.take(i)) matches Some(ino) && t.is(
            ino,
            FileType::File,
        ))
}

/// Whether attributes are those of an inode. The size of a directory is left to the store.
pub open spec fn attr_fits(t: Tree, ino: i64, attr: FileAttr) -> bool {
    t.kinds.dom().contains(ino) && attr.ino == ino && attr.kind == t.kinds[ino] && (attr.kind
        == FileType::File ==> attr.size == t.sizes[ino])
}

/// Whether a list holds exactly the children of a directory, one entry for each.
pub open spec fn lists(t: Tree, dir: i64, list: Seq<DirEntry>) -> bool {
    &&& forall|i: int|
        0 <= i < list.len() ==> t.child(dir, (#[trigger] list[i]).name@) == Some(list[i].ino)
            && t.kinds.dom().contains(list[i].ino) && list[i].kind == t.kinds[list[i].ino]
    &&& forall|i: int, j: int|
        0 <= i < j < list.len() ==> (#[trigger] list[i]).name@ != (#[trigger] list[j]).name@
    &&& forall|name: Seq<char>| #[trigger]
        t.child(dir, name) is Some ==> exists|i: int|
            0 <= i < list.len() && (#[trigger] list[i]).name@ == name
}

/// Whether the parts of the file system, on a tree, answer the request with the reply and leave
/// the tree as `t2`. A move onto a name that is taken may be refused, or may give the name away;
/// the attributes of what is no file may or may not be set; and what is no directory may be listed
/// as empty.
pub open spec fn fs_answers(t: Tree, req: FsRequestView, reply: FsReply, t2: Tree) -> bool {
    match req {
        FsRequestView::Resolve(path) => t2 == t && match reply {
            FsReply::Path(Ok(ino)) => t.walk(components(path)) == Some(ino.0),
            FsReply::Path(Err(_)) => t.walk(components(path)) is None,
            _ => false,
        },
        FsRequestView::MakeDirs(path) => match reply {
            FsReply::Path(Ok(ino)) => if t.walk(components(path)) is Some {
                t2 == t && t.walk(components(path)) == Some(ino.0)
            } else {
                grown_along(t, t2, components(path)) && t2.walk(components(path)) == Some(ino.0)
                    && t2.is(ino.0, FileType::Dir) && t2.sound()
            },
            FsReply::Path(Err(e)) => t2 == t && e@ == VfsErrorView::NotDirectory(normal(path))
                && blocked(t, components(path)),
            _ => false,
        },
        FsRequestView::Lookup { parent, name } => t2 == t && match reply {
            FsReply::Child(Ok(ino)) => t.child(parent.0, name) == Some(ino.0),
            FsReply::Child(Err(_)) => t.child(parent.0, name) is None,
            _ => false,
        },
        FsRequestView::Getattr(ino) => t2 == t && match reply {
            FsReply::Attr(Ok(attr)) => attr_fits(t, ino.0, attr),
            FsReply::Attr(Err(_)) => !t.kinds.dom().contains(ino.0),
            _ => false,
        },
        FsRequestView::Readdir(ino) => t2 == t && match reply {
            FsReply::Entries(Ok(list)) => lists(t, ino.0, list@),
            FsReply::Entries(Err(_)) => !t.is(ino.0, FileType::Dir),
            _ => false,
        },
        FsRequestView::Create(p) => match reply {
            FsReply::Created(Ok(made)) => t.is(p.parent.0, FileType::Dir) && t.child(
                p.parent.0,
                p.name,
            ) is None && !t.kinds.dom().contains(made.0.0) && t2 == t.with(
                p.parent.0,
                p.name,
                made.0.0,
                p.kind,
            ) && attr_fits(t2, made.0.0, made.1),
            FsReply::Created(Err(_)) => t2 == t && (!t.is(p.parent.0, FileType::Dir) || t.child(
                p.parent.0,
                p.name,
            ) is Some),
            _ => false,
        },
        FsRequestView::Setattr(ino, mask) => match reply {
            FsReply::Attr(Ok(attr)) => t.kinds.dom().contains(ino.0) && t2 == (match mask.size {
                Some(size) => t.resized(ino.0, size),
                None => t,
            }) && attr_fits(t2, ino.0, attr),
            FsReply::Attr(Err(_)) => t2 == t && !t.is(ino.0, FileType::File),
            _ => false,
        },
        FsRequestView::Unlink { parent, name } => match reply {
            FsReply::Done(Ok(_)) => t.child(parent.0, name) is Some && t.is(
                t.names[(parent.0, name)],
                FileType::File,
            ) && t2 == t.without(parent.0, name),
            FsReply::Done(Err(_)) => t2 == t && !(t.child(parent.0, name) matches Some(ino)
                && t.is(ino, FileType::File)),
            _ => false,
        },
        FsRequestView::Rmdir { parent, name } => match reply {
            FsReply::Done(Ok(_)) => t.child(parent.0, name) is Some && t.is(
                t.names[(parent.0, name)],
                FileType::Dir,
            ) && !t.has_entries(t.names[(parent.0, name)]) && t2 == t.without(parent.0, name),
            FsReply::Done(Err(_)) => t2 == t && !(t.child(parent.0, name) matches Some(ino)
                && t.is(ino, FileType::Dir) && !t.has_entries(ino)),
            _ => false,
        },
        FsRequestView::Rename { old_parent, old_name, new_parent, new_name } => match reply {
            FsReply::Done(Ok(_)) => t.child(old_parent.0, old_name) is Some && t.is(
                new_parent.0,
                FileType::Dir,
            ) && t2 == t.moved(old_parent.0, old_name, new_parent.0, new_name),
            FsReply::Done(Err(_)) => t2 == t && (t.child(old_parent.0, old_name) is None || !t.is(
                new_parent.0,
                FileType::Dir,
            ) || t.child(new_parent.0, new_name) is Some),
            _ => false,
        },
        FsRequestView::ReadData { ino, offset, len } => t2 == t && (reply matches FsReply::Data(
            bytes,
        ) && bytes@ == t.part(ino.0, offset as int, len as nat)),
        FsRequestView::WriteData { ino, offset, data } => t2 == (Tree {
            bytes: written(t.bytes, ino.0, offset as int, data),
            ..t
        }) && (reply matches FsReply::Written(n) && n == data.len()),
    }
}

/// Whether an operation, from state `s` on tree `t`, runs through the replies and trees of
/// `trace` and ends with `end`.
pub open spec fn fs_runs<O: FsOperation>(
    s: O::State,
    t: Tree,
    trace: Seq<(FsReply, Tree)>,
    end: (Tree, Result<O::Shown, VfsErrorView>),
) -> bool
    decreases trace.len(),
{
    &&& trace.len() > 0
    &&& fs_answers(t, O::asks(s), trace[0].0, trace[0].1)
    &&& match O::after(s, trace[0].0) {
        FsStepView::Next(s2) => fs_runs::<O>(s2, trace[0].1, trace.drop_first(), end),
        FsStepView::Done(r) => trace.len() == 1 && end == (trace[0].1, r),
    }
}

/// A walk that has come to a directory goes on from there.
proof fn lemma_resolve(
    t: Tree,
    s: ResolveState,
    trace: Seq<(FsReply, Tree)>,
    end: (Tree, Result<Inode, VfsErrorView>),
)
    requires
        0 <= s.at < s.parts.len(),
        t.walk(s.parts.take(s.at)) == Some(s.current.0),
        fs_runs::<Resolve>(s, t, trace, end),
    ensures
        end.0 == t,
        match t.walk(s.parts) {
            Some(ino) => end.1 == Ok::<Inode, VfsErrorView>(Inode(ino)),
            None => end.1 matches Err(VfsErrorView::PathNotFound(_)),
        },
    decreases s.parts.len() - s.at,
{
    let next = s.parts.take(s.at + 1);
    assert(next.drop_last() =~= s.parts.take(s.at));
    assert(next.last() == s.parts[s.at]);
    match trace[0].0 {
        FsReply::Child(Ok(ino)) => {
            assert(t.walk(next) == Some(ino.0));
            if s.at + 1 < s.parts.len() {
                let s2 = ResolveState { at: s.at + 1, current: ino, ..s };
                lemma_resolve(t, s2, trace.drop_first(), end);
            } else {
                assert(next =~= s.parts);
            }
        },
        _ => {
            assert(t.walk(next) is None);
            lemma_stuck(t, s.parts, s.at + 1);
        },
    }
}

/// Where the first names lead nowhere all names lead nowhere.
proof fn lemma_stuck(t: Tree, parts: Seq<Seq<char>>, n: int)
    requires
        0 <= n <= parts.len(),
        t.walk(parts.take(n)) is None,
    ensures
        t.walk(parts) is None,
    decreases parts.len(),
{
    if n == parts.len() {
        assert(parts.take(n) =~= parts);
    } else {
        assert(parts.drop_last().take(n) =~= parts.take(n));
        lemma_stuck(t, parts.drop_last(), n);
    }
}

/// A path is resolved as where its names lead, and the walk changes nothing.
pub proof fn law_resolve_runs(
    t: Tree,
    path: Seq<char>,
    trace: Seq<(FsReply, Tree)>,
    end: (Tree, Result<Inode, VfsErrorView>),
)
    requires
        components(path).len() > 0,
        fs_runs::<Resolve>(
            ResolveState {
                path,
                parts: components(path),
                at: 0,
                current: Inode(t.root),
            },
            t,
            trace,
            end,
        ),
    ensures
        end.0 == t,
        match t.walk(components(path)) {
            Some(ino) => end.1 == Ok::<Inode, VfsErrorView>(Inode(ino)),
            None => end.1 matches Err(VfsErrorView::PathNotFound(_)),
        },
{
    let s = ResolveState { path, parts: components(path), at: 0, current: Inode(t.root) };
    assert(s.parts.take(0).len() == 0);
    lemma_resolve(t, s, trace, end);
}

/// What leads somewhere leads there in a larger tree too.
pub proof fn lemma_walk_within(t: Tree, t2: Tree, parts: Seq<Seq<char>>)
    requires
        t.within(t2),
    ensures
        t.walk(parts) matches Some(ino) ==> t2.walk(parts) == Some(ino),
    decreases parts.len(),
{
    if parts.len() > 0 {
        lemma_walk_within(t, t2, parts.drop_last());
        if let Some(dir) = t.walk(parts.drop_last()) {
            if t.names.dom().contains((dir, parts.last())) {
                assert(t2.names.dom().contains((dir, parts.last())));
            }
        }
    }
}

/// Names lead to inodes of the tree.
pub proof fn lemma_walk_known(t: Tree, parts: Seq<Seq<char>>)
    requires
        t.sound(),
    ensures
        t.walk(parts) matches Some(ino) ==> t.kinds.dom().contains(ino),
        t.walk(parts) is Some && parts.len() > 0 ==> t.walk(parts) != Some(t.root),
        t.walk(parts) is Some && parts.len() > 0 ==> (t.walk(parts.drop_last()) matches Some(dir)
            && t.is(dir, FileType::Dir)),
    decreases parts.len(),
{
    if parts.len() > 0 {
        lemma_walk_known(t, parts.drop_last());
        if let Some(dir) = t.walk(parts.drop_last()) {
            if t.names.dom().contains((dir, parts.last())) {
                assert(t.is(dir, FileType::Dir));
            }
        }
    }
}

/// Only one list of names leads to an inode.
pub proof fn lemma_one_way(t: Tree, a: Seq<Seq<char>>, b: Seq<Seq<char>>)
    requires
        t.sound(),
        t.walk(a) is Some,
        t.walk(a) == t.walk(b),
    ensures
        a == b,
    decreases a.len(),
{
    lemma_walk_known(t, a);
    lemma_walk_known(t, b);
    if a.len() == 0 || b.len() == 0 {
        assert(a =~= b);
    } else {
        let d = t.walk(a.drop_last())->0;
        let e = t.walk(b.drop_last())->0;
        assert(t.names.dom().contains((d, a.last())));
        assert(t.names.dom().contains((e, b.last())));
        lemma_one_way(t, a.drop_last(), b.drop_last());
        assert(a =~= a.drop_last().push(a.last()));
        assert(b =~= b.drop_last().push(b.last()));
    }
}

/// A new inode keeps a tree sound, and is the only thing new.
pub proof fn lemma_with(t: Tree, dir: i64, name: Seq<char>, ino: i64, kind: FileType)
    requires
        t.sound(),
        t.is(dir, FileType::Dir),
        t.child(dir, name) is None,
        !t.kinds.dom().contains(ino),
    ensures
        t.with(dir, name, ino, kind).sound(),
        t.within(t.with(dir, name, ino, kind)),
        t.with(dir, name, ino, kind).child(dir, name) == Some(ino),
{
    let t2 = t.with(dir, name, ino, kind);
    assert(t2.sizes.dom() =~= t2.kinds.dom());
    assert forall|at: (i64, Seq<char>)| #[trigger] t2.names.dom().contains(at) implies t2.is(
        at.0,
        FileType::Dir,
    ) && t2.kinds.dom().contains(t2.names[at]) && t2.names[at] != t2.root by {
        if at != (dir, name) {
            assert(t.names.dom().contains(at));
        }
    }
    assert forall|a: (i64, Seq<char>), b: (i64, Seq<char>)| #[trigger]
        t2.names.dom().contains(a) && #[trigger] t2.names.dom().contains(b) && t2.names[a]
            == t2.names[b] implies a == b by {
        if a != (dir, name) {
            assert(t.names.dom().contains(a));
        }
        if b != (dir, name) {
            assert(t.names.dom().contains(b));
        }
    }
}

/// Growing along a path twice is growing along it.
proof fn lemma_grown_twice(t: Tree, t1: Tree, t2: Tree, parts: Seq<Seq<char>>, n: int)
    requires
        0 <= n < parts.len(),
        t.within(t1),
        forall|at: (i64, Seq<char>)| #[trigger]
            t1.names.dom().contains(at) && !t.names.dom().contains(at) ==> t1.is(
                t1.names[at],
                FileType::Dir,
            ) && !t.kinds.dom().contains(t1.names[at]) && t1.walk(parts.take(n)) == Some(at.0)
                && parts[n] == at.1,
        grown_along(t1, t2, parts),
    ensures
        grown_along(t, t2, parts),
{
    lemma_walk_within(t1, t2, parts.take(n));
    assert(t.within(t2)) by {
        assert forall|k: i64| #[trigger] t.kinds.dom().contains(k) implies t2.kinds.dom().contains(
            k,
        ) && t2.kinds[k] == t.kinds[k] by {
            assert(t1.kinds.dom().contains(k));
        }
        assert forall|k: i64| #[trigger] t.sizes.dom().contains(k) implies t2.sizes.dom().contains(
            k,
        ) && t2.sizes[k] == t.sizes[k] by {
            assert(t1.sizes.dom().contains(k));
        }
        assert forall|k: (i64, Seq<char>)| #[trigger]
            t.names.dom().contains(k) implies t2.names.dom().contains(k) && t2.names[k]
            == t.names[k] by {
            assert(t1.names.dom().contains(k));
        }
    }
    assert forall|at: (i64, Seq<char>)| #[trigger]
        t2.names.dom().contains(at) && !t.names.dom().contains(at) implies t2.is(
        t2.names[at],
        FileType::Dir,
    ) && !t.kinds.dom().contains(t2.names[at]) && exists|i: int|
        0 <= i < parts.len() && t2.walk(#[trigger] parts.take(i)) == Some(at.0) && parts[i]
            == at.1 by {
        if t1.names.dom().contains(at) {
            assert(t1.kinds.dom().contains(t1.names[at]));
            assert(t2.kinds[t1.names[at]] == t1.kinds[t1.names[at]]);
            assert(t2.walk(parts.take(n)) == Some(at.0));
        }
    }
}

/// The making of directories from the point where it goes along the path.
proof fn lemma_mkdir(
    t: Tree,
    s: MkdirState,
    trace: Seq<(FsReply, Tree)>,
    end: (Tree, Result<Inode, VfsErrorView>),
)
    requires
        t.sound(),
        are_names(s.parts),
        0 <= s.at < s.parts.len(),
        s.phase == MkdirPhase::Prefix,
        t.walk(s.parts.take(s.at)) == Some(s.current.0),
        t.is(s.current.0, FileType::Dir),
        fs_runs::<MkdirP>(s, t, trace, end),
    ensures
        match end.1 {
            Ok(ino) => grown_along(t, end.0, s.parts) && end.0.walk(s.parts) == Some(ino.0)
                && end.0.is(ino.0, FileType::Dir) && end.0.sound(),
            Err(e) => end.0 == t && e == VfsErrorView::NotDirectory(s.path) && exists|i: int|
                s.at < i <= s.parts.len() && (t.walk(#[trigger] s.parts.take(i)) matches Some(ino)
                    && t.is(ino, FileType::File)),
        },
    decreases s.parts.len() - s.at,
{
    let next = s.parts.take(s.at + 1);
    assert(next.drop_last() =~= s.parts.take(s.at));
    assert(next.last() == s.parts[s.at]);
    assert forall|i: int| 0 <= i < next.len() implies crate::vfs::path::is_name(
        #[trigger] next[i],
    ) by {
        assert(crate::vfs::path::is_name(s.parts[i]));
    }
    law_path_of_names_reads_back(next);
    let rest = trace.drop_first();
    match trace[0].0 {
        FsReply::Path(Ok(ino)) => {
            let s1 = MkdirState { phase: MkdirPhase::Found(ino), ..s };
            assert(fs_runs::<MkdirP>(s1, t, rest, end));
            lemma_walk_known(t, next);
            assert(t.walk(next) == Some(ino.0));
            match rest[0].0 {
                FsReply::Attr(Ok(attr)) => {
                    if attr.kind == FileType::Dir {
                        if s.at + 1 < s.parts.len() {
                            let s2 = MkdirState {
                                at: s.at + 1,
                                current: ino,
                                phase: MkdirPhase::Prefix,
                                ..s
                            };
                            assert(fs_runs::<MkdirP>(s2, t, rest.drop_first(), end));
                            lemma_mkdir(t, s2, rest.drop_first(), end);
                        } else {
                            assert(next =~= s.parts);
                        }
                    } else {
                        assert(t.walk(s.parts.take(s.at + 1)) == Some(ino.0));
                    }
                },
                _ => {},
            }
        },
        _ => {
            let s1 = MkdirState { phase: MkdirPhase::Make, ..s };
            assert(fs_runs::<MkdirP>(s1, t, rest, end));
            assert(t.walk(next) is None);
            assert(t.child(s.current.0, s.parts[s.at]) is None);
            match rest[0].0 {
                FsReply::Created(Ok(made)) => {
                    let ino = made.0;
                    let t1 = rest[0].1;
                    lemma_with(t, s.current.0, s.parts[s.at], ino.0, FileType::Dir);
                    lemma_walk_within(t, t1, s.parts.take(s.at));
                    assert(t1.walk(next) == Some(ino.0));
                    if s.at + 1 < s.parts.len() {
                        let s2 = MkdirState {
                            at: s.at + 1,
                            current: ino,
                            phase: MkdirPhase::Prefix,
                            ..s
                        };
                        assert(fs_runs::<MkdirP>(s2, t1, rest.drop_first(), end));
                        lemma_mkdir(t1, s2, rest.drop_first(), end);
                        lemma_new_is_empty(t, s.current.0, s.parts[s.at], ino.0, s.parts, s.at + 1);
                        if end.1 is Ok {
                            lemma_grown_twice(t, t1, end.0, s.parts, s.at);
                        }
                    } else {
                        assert(next =~= s.parts);
                        assert(grown_along(t, t1, s.parts));
                    }
                },
                _ => {},
            }
        },
    }
}

/// Below a new directory there is nothing.
proof fn lemma_new_is_empty(
    t: Tree,
    dir: i64,
    name: Seq<char>,
    ino: i64,
    parts: Seq<Seq<char>>,
    n: int,
)
    requires
        t.sound(),
        t.is(dir, FileType::Dir),
        t.child(dir, name) is None,
        !t.kinds.dom().contains(ino),
        0 < n < parts.len(),
        t.with(dir, name, ino, FileType::Dir).walk(parts.take(n)) == Some(ino),
    ensures
        forall|i: int|
            n < i <= parts.len() ==> t.with(dir, name, ino, FileType::Dir).walk(
                #[trigger] parts.take(i),
            ) is None,
{
    let t2 = t.with(dir, name, ino, FileType::Dir);
    let first = parts.take(n + 1);
    assert(first.drop_last() =~= parts.take(n));
    if t2.names.dom().contains((ino, first.last())) {
        assert(t.names.dom().contains((ino, first.last())));
        assert(t.is(ino, FileType::Dir));
    }
    assert(t2.walk(first) is None);
    assert forall|i: int| n < i <= parts.len() implies t2.walk(#[trigger] parts.take(i)) is None by {
        assert(parts.take(i).take(n + 1) =~= first);
        lemma_stuck(t2, parts.take(i), n + 1);
    }
}

/// The making of the directories of a path leaves a path that is there, makes the directories
/// that are missing on one that is not, and nothing else, and fails without a change where a file
/// is in the way.
pub proof fn law_mkdir_p_runs(
    t: Tree,
    path: Seq<char>,
    trace: Seq<(FsReply, Tree)>,
    end: (Tree, Result<Inode, VfsErrorView>),
)
    requires
        t.sound(),
        components(path).len() > 0,
        fs_runs::<MkdirP>(
            MkdirState {
                path: normal(path),
                parts: components(path),
                at: 0,
                current: Inode(t.root),
                phase: MkdirPhase::Whole,
            },
            t,
            trace,
            end,
        ),
    ensures
        match end.1 {
            Ok(ino) => if t.walk(components(path)) is Some {
                end.0 == t && t.walk(components(path)) == Some(ino.0)
            } else {
                grown_along(t, end.0, components(path)) && end.0.walk(components(path)) == Some(
                    ino.0,
                ) && end.0.is(ino.0, FileType::Dir) && end.0.sound()
            },
            Err(e) => end.0 == t && e == VfsErrorView::NotDirectory(normal(path)) && blocked(
                t,
                components(path),
            ),
        },
{
    law_normal_form(path);
    lemma_components_are_names(path);
    let s = MkdirState {
        path: normal(path),
        parts: components(path),
        at: 0,
        current: Inode(t.root),
        phase: MkdirPhase::Whole,
    };
    assert(s.parts.take(0).len() == 0);
    if trace[0].0 matches FsReply::Path(Err(_)) {
        let s2 = MkdirState { phase: MkdirPhase::Prefix, ..s };
        assert(fs_runs::<MkdirP>(s2, t, trace.drop_first(), end));
        lemma_mkdir(t, s2, trace.drop_first(), end);
    }
}

} // verus!
