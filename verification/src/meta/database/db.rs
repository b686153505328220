//! Requests to the tables, their replies, and what they mean.
//!
//! There are three tables, each keyed by inode: metadata of files, metadata of
//! directories, and directory entries. An operation may work in a transaction:
//! what it writes counts only once it is committed.

use crate::meta::entities::{AccessMetaModel, ContentMetaModel, EntryType, FileMetaModel};
use crate::meta::store::{ErrorView, MetaError, Step, StepView};
use vstd::prelude::*;

verus! {

/// A request to the tables.
#[derive(Debug, Clone)]
pub enum DbRequest {
    /// Begin a transaction.
    Begin,
    /// Commit the transaction.
    Commit,
    /// The metadata of a file.
    FindFile(i64),
    /// The metadata of a directory.
    FindDir(i64),
    /// The metadata of several files.
    FindFiles(Vec<i64>),
    /// The metadata of several directories.
    FindDirs(Vec<i64>),
    /// The entry of a name in a directory.
    FindEntry { parent: i64, name: String },
    /// The entries of a directory.
    FindEntries(i64),
    /// How many entries a directory has.
    CountEntries(i64),
    InsertFile(FileMetaModel),
    InsertDir(AccessMetaModel),
    InsertEntry(ContentMetaModel),
    UpdateFile(FileMetaModel),
    UpdateDir(AccessMetaModel),
    DeleteFile(i64),
    DeleteDir(i64),
    /// Delete the entry of an inode.
    DeleteEntry(i64),
    /// A number for a new inode.
    NewId,
}

/// A directory entry with its name as a sequence of characters.
pub struct EntryView {
    pub parent: i64,
    pub name: Seq<char>,
    pub entry_type: EntryType,
}

/// A request over views.
pub enum DbRequestView {
    Begin,
    Commit,
    FindFile(i64),
    FindDir(i64),
    FindFiles(Seq<i64>),
    FindDirs(Seq<i64>),
    FindEntry { parent: i64, name: Seq<char> },
    FindEntries(i64),
    CountEntries(i64),
    InsertFile(FileMetaModel),
    InsertDir(AccessMetaModel),
    InsertEntry(i64, EntryView),
    UpdateFile(FileMetaModel),
    UpdateDir(AccessMetaModel),
    DeleteFile(i64),
    DeleteDir(i64),
    DeleteEntry(i64),
    NewId,
}

/// The entry that a row stands for.
pub open spec fn entry_view(c: ContentMetaModel) -> EntryView {
    EntryView { parent: c.parent_inode, name: c.entry_name@, entry_type: c.entry_type }
}

impl View for DbRequest {
    type V = DbRequestView;

    open spec fn view(&self) -> DbRequestView {
        match *self {
            DbRequest::Begin => DbRequestView::Begin,
            DbRequest::Commit => DbRequestView::Commit,
            DbRequest::FindFile(ino) => DbRequestView::FindFile(ino),
            DbRequest::FindDir(ino) => DbRequestView::FindDir(ino),
            DbRequest::FindFiles(inos) => DbRequestView::FindFiles(inos@),
            DbRequest::FindDirs(inos) => DbRequestView::FindDirs(inos@),
            DbRequest::FindEntry { parent, name } => DbRequestView::FindEntry {
                parent,
                name: name@,
            },
            DbRequest::FindEntries(ino) => DbRequestView::FindEntries(ino),
            DbRequest::CountEntries(ino) => DbRequestView::CountEntries(ino),
            DbRequest::InsertFile(m) => DbRequestView::InsertFile(m),
            DbRequest::InsertDir(m) => DbRequestView::InsertDir(m),
            DbRequest::InsertEntry(c) => DbRequestView::InsertEntry(c.inode, entry_view(c)),
            DbRequest::UpdateFile(m) => DbRequestView::UpdateFile(m),
            DbRequest::UpdateDir(m) => DbRequestView::UpdateDir(m),
            DbRequest::DeleteFile(ino) => DbRequestView::DeleteFile(ino),
            DbRequest::DeleteDir(ino) => DbRequestView::DeleteDir(ino),
            DbRequest::DeleteEntry(ino) => DbRequestView::DeleteEntry(ino),
            DbRequest::NewId => DbRequestView::NewId,
        }
    }
}

/// A reply of the tables.
#[derive(Debug, Clone)]
pub enum DbReply {
    File(Option<FileMetaModel>),
    Dir(Option<AccessMetaModel>),
    Files(Vec<FileMetaModel>),
    Dirs(Vec<AccessMetaModel>),
    Entry(Option<ContentMetaModel>),
    Entries(Vec<ContentMetaModel>),
    Count(u64),
    /// The write was made.
    Done,
    /// A number for a new inode.
    Id(i64),
    /// There is no number to be had.
    Refused(MetaError),
    /// The database failed.
    Failed(String),
}

/// Whether a reply is of the kind that the request calls for.
pub open spec fn db_fits(req: DbRequestView, reply: DbReply) -> bool {
    match reply {
        DbReply::File(_) => req is FindFile,
        DbReply::Dir(_) => req is FindDir,
        DbReply::Files(_) => req is FindFiles,
        DbReply::Dirs(_) => req is FindDirs,
        DbReply::Entry(_) => req is FindEntry,
        DbReply::Entries(_) => req is FindEntries,
        DbReply::Count(_) => req is CountEntries,
        DbReply::Done => match req {
            DbRequestView::Begin => true,
            DbRequestView::Commit => true,
            DbRequestView::InsertFile(_) => true,
            DbRequestView::InsertDir(_) => true,
            DbRequestView::InsertEntry(_, _) => true,
            DbRequestView::UpdateFile(_) => true,
            DbRequestView::UpdateDir(_) => true,
            DbRequestView::DeleteFile(_) => true,
            DbRequestView::DeleteDir(_) => true,
            DbRequestView::DeleteEntry(_) => true,
            _ => false,
        },
        DbReply::Id(_) => req is NewId,
        DbReply::Refused(_) => req is NewId,
        DbReply::Failed(_) => req !is NewId,
    }
}

/// An operation on the tables.
pub trait DbOperation: Sized {
    /// How the state is shown in contracts.
    type State;

    /// What the operation ends with.
    type Output;

    /// How the end is shown in contracts.
    type Shown;

    /// The view of the state.
    spec fn state(self) -> Self::State;

    /// The view of what the operation ends with.
    spec fn shown(out: Self::Output) -> Self::Shown;

    /// The request that a state waits on.
    spec fn asks(s: Self::State) -> DbRequestView;

    /// How the operation goes on after a reply.
    spec fn after(s: Self::State, reply: DbReply) -> StepView<Self::State, Self::Shown>;

    /// The request that the state waits on.
    fn request(&self) -> (r: DbRequest)
        ensures
            r@ == Self::asks(self.state()),
    ;

    /// Goes on after the reply to the request.
    fn resume(self, reply: DbReply) -> (r: Step<Self, Self::Output>)
        requires
            db_fits(Self::asks(self.state()), reply),
        ensures
            (match r {
                Step::Next(s) => StepView::<Self::State, Self::Shown>::Next(s.state()),
                Step::Done(Ok(out)) => StepView::<Self::State, Self::Shown>::Done(
                    Ok(Self::shown(out)),
                ),
                Step::Done(Err(e)) => StepView::<Self::State, Self::Shown>::Done(Err(e@)),
            }) == Self::after(self.state(), reply),
    ;
}

/// What the tables hold.
pub struct Tables {
    pub files: Map<i64, FileMetaModel>,
    pub dirs: Map<i64, AccessMetaModel>,
    pub entries: Map<i64, EntryView>,
}

/// The database: what is committed, and what the transaction that is open sees.
pub struct Database {
    pub committed: Tables,
    pub open: Option<Tables>,
}

impl Tables {
    /// Whether an inode stands in a directory under a name.
    pub open spec fn stands(self, ino: i64, parent: i64, name: Seq<char>) -> bool {
        self.entries.dom().contains(ino) && self.entries[ino].parent == parent
            && self.entries[ino].name == name
    }

    /// The inode of a name in a directory, if there is one.
    pub open spec fn named(self, parent: i64, name: Seq<char>) -> Option<i64> {
        if exists|ino: i64| #[trigger] self.stands(ino, parent, name) {
            Some(choose|ino: i64| #[trigger] self.stands(ino, parent, name))
        } else {
            None
        }
    }

    /// Whether a directory has an entry.
    pub open spec fn has_entries(self, parent: i64) -> bool {
        exists|ino: i64| #[trigger]
            self.entries.dom().contains(ino) && self.entries[ino].parent == parent
    }

    /// Whether nothing has a number. Numbers for new inodes are such.
    pub open spec fn unused(self, ino: i64) -> bool {
        !self.files.dom().contains(ino) && !self.dirs.dom().contains(ino)
            && !self.entries.dom().contains(ino)
    }

    /// A row that says what the entry of its inode is.
    pub open spec fn is_row(self, c: ContentMetaModel) -> bool {
        self.entries.dom().contains(c.inode) && self.entries[c.inode] == entry_view(c)
    }

    /// The tables after a write.
    pub open spec fn written(self, req: DbRequestView) -> Tables {
        match req {
            DbRequestView::InsertFile(m) => Tables { files: self.files.insert(m.inode, m), ..self },
            DbRequestView::UpdateFile(m) => Tables { files: self.files.insert(m.inode, m), ..self },
            DbRequestView::InsertDir(m) => Tables { dirs: self.dirs.insert(m.inode, m), ..self },
            DbRequestView::UpdateDir(m) => Tables { dirs: self.dirs.insert(m.inode, m), ..self },
            DbRequestView::InsertEntry(ino, e) => Tables {
                entries: self.entries.insert(ino, e),
                ..self
            },
            DbRequestView::DeleteFile(ino) => Tables { files: self.files.remove(ino), ..self },
            DbRequestView::DeleteDir(ino) => Tables { dirs: self.dirs.remove(ino), ..self },
            DbRequestView::DeleteEntry(ino) => Tables {
                entries: self.entries.remove(ino),
                ..self
            },
            _ => self,
        }
    }

    /// Whether a write is one that the tables accept: a row is inserted once.
    pub open spec fn accepts(self, req: DbRequestView) -> bool {
        match req {
            DbRequestView::InsertFile(m) => !self.files.dom().contains(m.inode),
            DbRequestView::InsertDir(m) => !self.dirs.dom().contains(m.inode),
            DbRequestView::InsertEntry(ino, _) => !self.entries.dom().contains(ino),
            DbRequestView::UpdateFile(m) => self.files.dom().contains(m.inode),
            DbRequestView::UpdateDir(m) => self.dirs.dom().contains(m.inode),
            _ => true,
        }
    }

    /// Whether a reply tells the truth about a read.
    pub open spec fn tells(self, req: DbRequestView, reply: DbReply) -> bool {
        match req {
            DbRequestView::FindFile(ino) => reply == DbReply::File(
                if self.files.dom().contains(ino) {
                    Some(self.files[ino])
                } else {
                    None
                },
            ),
            DbRequestView::FindDir(ino) => reply == DbReply::Dir(
                if self.dirs.dom().contains(ino) {
                    Some(self.dirs[ino])
                } else {
                    None
                },
            ),
            DbRequestView::FindFiles(inos) => reply matches DbReply::Files(rows) && forall|
                m: FileMetaModel,
            | #[trigger]
                rows@.contains(m) <==> inos.contains(m.inode) && self.files.dom().contains(m.inode)
                    && self.files[m.inode] == m,
            DbRequestView::FindDirs(inos) => reply matches DbReply::Dirs(rows) && forall|
                m: AccessMetaModel,
            | #[trigger]
                rows@.contains(m) <==> inos.contains(m.inode) && self.dirs.dom().contains(m.inode)
                    && self.dirs[m.inode] == m,
            DbRequestView::FindEntry { parent, name } => match reply {
                DbReply::Entry(Some(c)) => self.is_row(c) && c.parent_inode == parent
                    && c.entry_name@ == name,
                DbReply::Entry(None) => self.named(parent, name) is None,
                _ => false,
            },
            DbRequestView::FindEntries(parent) => reply matches DbReply::Entries(rows) && {
                &&& forall|i: int|
                    0 <= i < rows@.len() ==> self.is_row(#[trigger] rows@[i])
                        && rows@[i].parent_inode == parent
                &&& forall|i: int, j: int|
                    0 <= i < j < rows@.len() ==> #[trigger] rows@[i].inode
                        != #[trigger] rows@[j].inode
                &&& forall|ino: i64| #[trigger]
                    self.entries.dom().contains(ino) && self.entries[ino].parent == parent
                        ==> exists|i: int| 0 <= i < rows@.len() && #[trigger] rows@[i].inode == ino
            },
            DbRequestView::CountEntries(parent) => reply matches DbReply::Count(n) && (n > 0
                <==> self.has_entries(parent)),
            DbRequestView::NewId => reply matches DbReply::Id(ino) && self.unused(ino),
            _ => false,
        }
    }
}

impl Database {
    /// What an operation sees: the open transaction, or else what is committed.
    pub open spec fn seen(self) -> Tables {
        match self.open {
            Some(t) => t,
            None => self.committed,
        }
    }

    /// The database with other tables in sight.
    pub open spec fn seeing(self, t: Tables) -> Database {
        match self.open {
            Some(_) => Database { open: Some(t), ..self },
            None => Database { committed: t, ..self },
        }
    }
}

/// Whether the database answers the request with the reply and is then `db2`.
/// A failure is no answer.
pub open spec fn db_answers(db: Database, req: DbRequestView, reply: DbReply, db2: Database) -> bool {
    match req {
        DbRequestView::Begin => reply is Done && db2 == (Database {
            open: Some(db.committed),
            ..db
        }),
        DbRequestView::Commit => reply is Done && db2 == (Database {
            committed: db.seen(),
            open: None,
        }),
        DbRequestView::InsertFile(_) => reply is Done && db.seen().accepts(req) && db2
            == db.seeing(db.seen().written(req)),
        DbRequestView::InsertDir(_) => reply is Done && db.seen().accepts(req) && db2 == db.seeing(
            db.seen().written(req),
        ),
        DbRequestView::InsertEntry(_, _) => reply is Done && db.seen().accepts(req) && db2
            == db.seeing(db.seen().written(req)),
        DbRequestView::UpdateFile(_) => reply is Done && db.seen().accepts(req) && db2
            == db.seeing(db.seen().written(req)),
        DbRequestView::UpdateDir(_) => reply is Done && db.seen().accepts(req) && db2 == db.seeing(
            db.seen().written(req),
        ),
        DbRequestView::DeleteFile(_) => reply is Done && db2 == db.seeing(db.seen().written(req)),
        DbRequestView::DeleteDir(_) => reply is Done && db2 == db.seeing(db.seen().written(req)),
        DbRequestView::DeleteEntry(_) => reply is Done && db2 == db.seeing(db.seen().written(req)),
        _ => db2 == db && db.seen().tells(req, reply),
    }
}

/// Whether the database fails on the request, which changes nothing.
pub open spec fn db_fails(db: Database, req: DbRequestView, reply: DbReply, db2: Database) -> bool {
    db2 == db && match reply {
        DbReply::Failed(_) => req !is NewId,
        DbReply::Refused(_) => req is NewId,
        _ => false,
    }
}

/// Whether an operation, from state `s` on database `db`, runs through the
/// replies and databases of `trace` and ends with `end`. In a steady run the
/// database does not fail. A transaction that is still open at the end is given up.
pub open spec fn db_runs<O: DbOperation>(
    steady: bool,
    s: O::State,
    db: Database,
    trace: Seq<(DbReply, Database)>,
    end: (Tables, Result<O::Shown, ErrorView>),
) -> bool
    decreases trace.len(),
{
    &&& trace.len() > 0
    &&& db_answers(db, O::asks(s), trace[0].0, trace[0].1) || (!steady && db_fails(
        db,
        O::asks(s),
        trace[0].0,
        trace[0].1,
    ))
    &&& match O::after(s, trace[0].0) {
        StepView::Next(s2) => db_runs::<O>(steady, s2, trace[0].1, trace.drop_first(), end),
        StepView::Done(r) => trace.len() == 1 && end == (trace[0].1.committed, r),
    }
}

/// A database without an open transaction.
pub open spec fn at_rest(t: Tables) -> Database {
    Database { committed: t, open: None }
}

} // verus!
