//! Lookups and listings on the tables.

use crate::meta::database::db::{DbOperation, DbReply, DbRequest, DbRequestView};
use crate::meta::database::store::{db_failed, db_failure};
use crate::meta::entities::{AccessMetaModel, ContentMetaModel, EntryType, FileMetaModel};
use crate::meta::etcd::atomic_reads::{
    attr_of_dir, attr_of_file, dir_attr, dir_entries, dir_entry, entries_of, file_attr,
};
use crate::meta::store::{DirEntry, ErrorView, FileAttr, FileType, MetaError, Step, StepView};
use crate::meta::types::Inode;
use std::collections::HashMap;
use vstd::prelude::*;

verus! {

/// What a name in a directory stands for.
pub struct Lookup {
    pub parent: i64,
    pub name: String,
}

impl DbOperation for Lookup {
    type State = Lookup;

    type Output = Inode;

    type Shown = Inode;

    open spec fn state(self) -> Lookup {
        self
    }

    open spec fn shown(out: Inode) -> Inode {
        out
    }

    open spec fn asks(s: Lookup) -> DbRequestView {
        DbRequestView::FindEntry { parent: s.parent, name: s.name@ }
    }

    open spec fn after(s: Lookup, reply: DbReply) -> StepView<Lookup, Inode> {
        match reply {
            DbReply::Entry(Some(c)) => StepView::Done(Ok(Inode(c.inode))),
            DbReply::Entry(None) => StepView::Done(Err(ErrorView::NotFound(s.parent))),
            _ => StepView::Done(Err(db_failure(reply))),
        }
    }

    fn request(&self) -> (r: DbRequest) {
        DbRequest::FindEntry { parent: self.parent, name: self.name.clone() }
    }

    fn resume(self, reply: DbReply) -> (r: Step<Self, Inode>) {
        match reply {
            DbReply::Entry(Some(c)) => Step::Done(Ok(Inode(c.inode))),
            DbReply::Entry(None) => Step::Done(Err(MetaError::NotFound(self.parent))),
            _ => Step::Done(Err(db_failed(reply))),
        }
    }
}

/// The entries of a directory.
pub struct Readdir {
    pub ino: i64,
    /// Whether the inode is known to be a directory.
    pub is_dir: bool,
}

impl DbOperation for Readdir {
    type State = Readdir;

    type Output = Vec<DirEntry>;

    type Shown = Seq<DirEntry>;

    open spec fn state(self) -> Readdir {
        self
    }

    open spec fn shown(out: Vec<DirEntry>) -> Seq<DirEntry> {
        out@
    }

    open spec fn asks(s: Readdir) -> DbRequestView {
        if s.is_dir {
            DbRequestView::FindEntries(s.ino)
        } else {
            DbRequestView::FindDir(s.ino)
        }
    }

    open spec fn after(s: Readdir, reply: DbReply) -> StepView<Readdir, Seq<DirEntry>> {
        match reply {
            DbReply::Dir(Some(_)) => StepView::Next(Readdir { ino: s.ino, is_dir: true }),
            DbReply::Dir(None) => StepView::Done(Err(ErrorView::NotDirectory(s.ino))),
            DbReply::Entries(rows) => StepView::Done(Ok(dir_entries(rows@))),
            _ => StepView::Done(Err(db_failure(reply))),
        }
    }

    fn request(&self) -> (r: DbRequest) {
        if self.is_dir {
            DbRequest::FindEntries(self.ino)
        } else {
            DbRequest::FindDir(self.ino)
        }
    }

    fn resume(self, reply: DbReply) -> (r: Step<Self, Vec<DirEntry>>) {
        match reply {
            DbReply::Dir(Some(_)) => Step::Next(Readdir { ino: self.ino, is_dir: true }),
            DbReply::Dir(None) => Step::Done(Err(MetaError::NotDirectory(self.ino))),
            DbReply::Entries(rows) => Step::Done(Ok(entries_of(&rows))),
            _ => Step::Done(Err(db_failed(reply))),
        }
    }
}

/// The attributes of files, each with its inode.
pub open spec fn file_attrs(rows: Seq<FileMetaModel>) -> Seq<(Inode, FileAttr)> {
    Seq::new(rows.len(), |i: int| (Inode(rows[i].inode), file_attr(rows[i])))
}

/// The attributes of directories, each with its inode.
pub open spec fn dir_attrs(rows: Seq<AccessMetaModel>) -> Seq<(Inode, FileAttr)> {
    Seq::new(rows.len(), |i: int| (Inode(rows[i].inode), dir_attr(rows[i])))
}

/// Adds the attributes of files.
fn push_files(found: &mut Vec<(Inode, FileAttr)>, rows: &Vec<FileMetaModel>)
    ensures
        final(found)@ == old(found)@ + file_attrs(rows@),
{
    let mut i: usize = 0;
    while i < rows.len()
        invariant
            i <= rows.len(),
            found@ == old(found)@ + file_attrs(rows@.take(i as int)),
        decreases rows.len() - i,
    {
        found.push((Inode(rows[i].inode), attr_of_file(&rows[i])));
        i = i + 1;
        assert(found@ =~= old(found)@ + file_attrs(rows@.take(i as int)));
    }
    assert(rows@.take(i as int) =~= rows@);
}

/// Adds the attributes of directories.
fn push_dirs(found: &mut Vec<(Inode, FileAttr)>, rows: &Vec<AccessMetaModel>)
    ensures
        final(found)@ == old(found)@ + dir_attrs(rows@),
{
    let mut i: usize = 0;
    while i < rows.len()
        invariant
            i <= rows.len(),
            found@ == old(found)@ + dir_attrs(rows@.take(i as int)),
        decreases rows.len() - i,
    {
        found.push((Inode(rows[i].inode), attr_of_dir(&rows[i])));
        i = i + 1;
        assert(found@ =~= old(found)@ + dir_attrs(rows@.take(i as int)));
    }
    assert(rows@.take(i as int) =~= rows@);
}

/// The attributes of several inodes: those of the files, then those of the
/// directories. What is neither is left out.
pub struct GetattrBatch {
    pub inos: Vec<i64>,
    /// What was found among the files, once they were read.
    pub found: Option<Vec<(Inode, FileAttr)>>,
}

/// The view of a batch.
pub struct BatchState {
    pub inos: Seq<i64>,
    pub found: Option<Seq<(Inode, FileAttr)>>,
}

/// The numbers of inodes.
pub open spec fn numbers(inos: Seq<Inode>) -> Seq<i64> {
    Seq::new(inos.len(), |i: int| inos[i].0)
}

impl GetattrBatch {
    /// Starts on the inodes; with none there is nothing to ask.
    pub fn start(inos: &Vec<Inode>) -> (r: Step<GetattrBatch, Vec<(Inode, FileAttr)>>)
        ensures
            match r {
                Step::Next(s) => inos@.len() > 0 && s.state() == (BatchState {
                    inos: numbers(inos@),
                    found: None,
                }),
                Step::Done(end) => inos@.len() == 0 && (end matches Ok(list) && list@
                    == Seq::<(Inode, FileAttr)>::empty()),
            },
    {
        if inos.len() == 0 {
            return Step::Done(Ok(Vec::new()));
        }
        let mut list: Vec<i64> = Vec::new();
        let mut i: usize = 0;
        while i < inos.len()
            invariant
                i <= inos.len(),
                list@ == numbers(inos@.take(i as int)),
            decreases inos.len() - i,
        {
            list.push(inos[i].0);
            i = i + 1;
            assert(list@ =~= numbers(inos@.take(i as int)));
        }
        assert(inos@.take(i as int) =~= inos@);
        Step::Next(GetattrBatch { inos: list, found: None })
    }
}

impl DbOperation for GetattrBatch {
    type State = BatchState;

    type Output = Vec<(Inode, FileAttr)>;

    type Shown = Seq<(Inode, FileAttr)>;

    open spec fn state(self) -> BatchState {
        BatchState {
            inos: self.inos@,
            found: match self.found {
                Some(found) => Some(found@),
                None => None,
            },
        }
    }

    open spec fn shown(out: Vec<(Inode, FileAttr)>) -> Seq<(Inode, FileAttr)> {
        out@
    }

    open spec fn asks(s: BatchState) -> DbRequestView {
        match s.found {
            None => DbRequestView::FindFiles(s.inos),
            Some(_) => DbRequestView::FindDirs(s.inos),
        }
    }

    open spec fn after(s: BatchState, reply: DbReply) -> StepView<
        BatchState,
        Seq<(Inode, FileAttr)>,
    > {
        match (s.found, reply) {
            (None, DbReply::Files(rows)) => StepView::Next(
                BatchState { inos: s.inos, found: Some(file_attrs(rows@)) },
            ),
            (Some(found), DbReply::Dirs(rows)) => StepView::Done(Ok(found + dir_attrs(rows@))),
            _ => StepView::Done(Err(db_failure(reply))),
        }
    }

    fn request(&self) -> (r: DbRequest) {
        match self.found {
            None => DbRequest::FindFiles(self.inos.clone()),
            Some(_) => DbRequest::FindDirs(self.inos.clone()),
        }
    }

    fn resume(self, reply: DbReply) -> (r: Step<Self, Vec<(Inode, FileAttr)>>) {
        let GetattrBatch { inos, found } = self;
        match (found, reply) {
            (None, DbReply::Files(rows)) => {
                let mut list: Vec<(Inode, FileAttr)> = Vec::new();
                push_files(&mut list, &rows);
                assert(list@ =~= file_attrs(rows@));
                Step::Next(GetattrBatch { inos, found: Some(list) })
            },
            (Some(mut list), DbReply::Dirs(rows)) => {
                push_dirs(&mut list, &rows);
                Step::Done(Ok(list))
            },
            (_, reply) => Step::Done(Err(db_failed(reply))),
        }
    }
}

/// The attributes by inode; where an inode comes twice the later counts.
pub open spec fn attr_map(attrs: Seq<(Inode, FileAttr)>) -> Map<i64, FileAttr>
    decreases attrs.len(),
{
    if attrs.len() == 0 {
        Map::empty()
    } else {
        attr_map(attrs.drop_last()).insert(attrs.last().0.0, attrs.last().1)
    }
}

/// The attributes by inode.
fn map_attrs(attrs: &Vec<(Inode, FileAttr)>) -> (r: HashMap<i64, FileAttr>)
    ensures
        r@ == attr_map(attrs@),
{
    broadcast use vstd::std_specs::hash::group_hash_axioms;

    let mut r: HashMap<i64, FileAttr> = HashMap::new();
    let mut i: usize = 0;
    while i < attrs.len()
        invariant
            i <= attrs.len(),
            r@ == attr_map(attrs@.take(i as int)),
        decreases attrs.len() - i,
    {
        let _ = r.insert(attrs[i].0.0, attrs[i].1);
        i = i + 1;
        assert(attrs@.take(i as int).drop_last() =~= attrs@.take(i - 1));
    }
    assert(attrs@.take(i as int) =~= attrs@);
    r
}

/// The entries with their attributes; what has none is left out.
pub open spec fn with_attrs(
    contents: Seq<ContentMetaModel>,
    attrs: Map<i64, FileAttr>,
) -> Seq<(DirEntry, FileAttr)>
    decreases contents.len(),
{
    if contents.len() == 0 {
        Seq::empty()
    } else if attrs.dom().contains(contents.last().inode) {
        with_attrs(contents.drop_last(), attrs).push(
            (dir_entry(contents.last()), attrs[contents.last().inode]),
        )
    } else {
        with_attrs(contents.drop_last(), attrs)
    }
}

/// The entries with their attributes.
pub fn join_attrs(contents: &Vec<ContentMetaModel>, attrs: &Vec<(Inode, FileAttr)>) -> (r: Vec<
    (DirEntry, FileAttr),
>)
    ensures
        r@ == with_attrs(contents@, attr_map(attrs@)),
{
    broadcast use vstd::std_specs::hash::group_hash_axioms;

    let map = map_attrs(attrs);
    let mut r: Vec<(DirEntry, FileAttr)> = Vec::new();
    let mut i: usize = 0;
    while i < contents.len()
        invariant
            i <= contents.len(),
            map@ == attr_map(attrs@),
            r@ == with_attrs(contents@.take(i as int), attr_map(attrs@)),
        decreases contents.len() - i,
    {
        let c = &contents[i];
        if let Some(attr) = map.get(&c.inode) {
            let entry = DirEntry {
                name: c.entry_name.clone(),
                ino: c.inode,
                kind: match c.entry_type {
                    EntryType::File => FileType::File,
                    EntryType::Directory => FileType::Dir,
                },
            };
            r.push((entry, *attr));
        }
        i = i + 1;
        assert(contents@.take(i as int).drop_last() =~= contents@.take(i - 1));
    }
    assert(contents@.take(i as int) =~= contents@);
    r
}

/// The inodes of entries.
pub open spec fn inodes(contents: Seq<ContentMetaModel>) -> Seq<i64> {
    Seq::new(contents.len(), |i: int| contents[i].inode)
}

/// The inodes of entries.
fn inodes_of(contents: &Vec<ContentMetaModel>) -> (r: Vec<i64>)
    ensures
        r@ == inodes(contents@),
{
    let mut r: Vec<i64> = Vec::new();
    let mut i: usize = 0;
    while i < contents.len()
        invariant
            i <= contents.len(),
            r@ == inodes(contents@.take(i as int)),
        decreases contents.len() - i,
    {
        r.push(contents[i].inode);
        i = i + 1;
        assert(r@ =~= inodes(contents@.take(i as int)));
    }
    assert(contents@.take(i as int) =~= contents@);
    r
}

/// The entries of a directory with their attributes.
pub struct Readdirplus {
    pub ino: i64,
    pub phase: ReaddirplusPhase,
}

/// How far such a listing has come.
pub enum ReaddirplusPhase {
    Dir,
    Entries,
    Attrs { contents: Vec<ContentMetaModel>, batch: GetattrBatch },
}

/// The view of such a listing.
pub enum ReaddirplusState {
    Dir(i64),
    Entries(i64),
    Attrs { ino: i64, contents: Seq<ContentMetaModel>, batch: BatchState },
}

impl DbOperation for Readdirplus {
    type State = ReaddirplusState;

    type Output = Vec<(DirEntry, FileAttr)>;

    type Shown = Seq<(DirEntry, FileAttr)>;

    open spec fn state(self) -> ReaddirplusState {
        match self.phase {
            ReaddirplusPhase::Dir => ReaddirplusState::Dir(self.ino),
            ReaddirplusPhase::Entries => ReaddirplusState::Entries(self.ino),
            ReaddirplusPhase::Attrs { contents, batch } => ReaddirplusState::Attrs {
                ino: self.ino,
                contents: contents@,
                batch: batch.state(),
            },
        }
    }

    open spec fn shown(out: Vec<(DirEntry, FileAttr)>) -> Seq<(DirEntry, FileAttr)> {
        out@
    }

    open spec fn asks(s: ReaddirplusState) -> DbRequestView {
        match s {
            ReaddirplusState::Dir(ino) => DbRequestView::FindDir(ino),
            ReaddirplusState::Entries(ino) => DbRequestView::FindEntries(ino),
            ReaddirplusState::Attrs { ino, contents, batch } => GetattrBatch::asks(batch),
        }
    }

    open spec fn after(s: ReaddirplusState, reply: DbReply) -> StepView<
        ReaddirplusState,
        Seq<(DirEntry, FileAttr)>,
    > {
        match s {
            ReaddirplusState::Dir(ino) => match reply {
                DbReply::Dir(Some(_)) => StepView::Next(ReaddirplusState::Entries(ino)),
                DbReply::Dir(None) => StepView::Done(Err(ErrorView::NotDirectory(ino))),
                _ => StepView::Done(Err(db_failure(reply))),
            },
            ReaddirplusState::Entries(ino) => match reply {
                DbReply::Entries(rows) => if rows@.len() == 0 {
                    StepView::Done(Ok(Seq::empty()))
                } else {
                    StepView::Next(
                        ReaddirplusState::Attrs {
                            ino,
                            contents: rows@,
                            batch: BatchState { inos: inodes(rows@), found: None },
                        },
                    )
                },
                _ => StepView::Done(Err(db_failure(reply))),
            },
            ReaddirplusState::Attrs { ino, contents, batch } => match GetattrBatch::after(
                batch,
                reply,
            ) {
                StepView::Next(more) => StepView::Next(
                    ReaddirplusState::Attrs { ino, contents, batch: more },
                ),
                StepView::Done(Ok(attrs)) => StepView::Done(
                    Ok(with_attrs(contents, attr_map(attrs))),
                ),
                StepView::Done(Err(e)) => StepView::Done(Err(e)),
            },
        }
    }

    fn request(&self) -> (r: DbRequest) {
        match &self.phase {
            ReaddirplusPhase::Dir => DbRequest::FindDir(self.ino),
            ReaddirplusPhase::Entries => DbRequest::FindEntries(self.ino),
            ReaddirplusPhase::Attrs { contents: _, batch } => batch.request(),
        }
    }

    fn resume(self, reply: DbReply) -> (r: Step<Self, Vec<(DirEntry, FileAttr)>>) {
        let Readdirplus { ino, phase } = self;
        match phase {
            ReaddirplusPhase::Dir => match reply {
                DbReply::Dir(Some(_)) => Step::Next(
                    Readdirplus { ino, phase: ReaddirplusPhase::Entries },
                ),
                DbReply::Dir(None) => Step::Done(Err(MetaError::NotDirectory(ino))),
                _ => Step::Done(Err(db_failed(reply))),
            },
            ReaddirplusPhase::Entries => match reply {
                DbReply::Entries(rows) => {
                    if rows.len() == 0 {
                        return Step::Done(Ok(Vec::new()));
                    }
                    let inos = inodes_of(&rows);
                    let batch = GetattrBatch { inos, found: None };
                    Step::Next(
                        Readdirplus {
                            ino,
                            phase: ReaddirplusPhase::Attrs { contents: rows, batch },
                        },
                    )
                },
                _ => Step::Done(Err(db_failed(reply))),
            },
            ReaddirplusPhase::Attrs { contents, batch } => match batch.resume(reply) {
                Step::Next(more) => Step::Next(
                    Readdirplus { ino, phase: ReaddirplusPhase::Attrs { contents, batch: more } },
                ),
                Step::Done(Ok(attrs)) => Step::Done(Ok(join_attrs(&contents, &attrs))),
                Step::Done(Err(e)) => Step::Done(Err(e)),
            },
        }
    }
}

} // verus!
