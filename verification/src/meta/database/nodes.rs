//! Nodes made with standard permissions, and the root directory.

use crate::meta::database::db::{DbOperation, DbReply, DbRequest, DbRequestView, EntryView};
use crate::meta::database::store::{db_failed, db_failure, new_dir, new_file};
use crate::meta::entities::{AccessMetaModel, ContentMetaModel, EntryType, FileMetaModel};
use crate::meta::etcd::atomic_reads::{find_content, find_entry};
use crate::meta::permission::Permission;
use crate::meta::store::{detailed, ErrorView, MetaError, Step, StepView};
use vstd::prelude::*;
use vstd::string::*;

verus! {

/// The mode of a directory that is made with standard permissions.
pub const STANDARD_DIR_MODE: u32 = 0o40755;

/// The mode of a file that is made with standard permissions.
pub const STANDARD_FILE_MODE: u32 = 0o644;

/// The error when the metadata of a directory cannot be read.
pub open spec fn access_failure(reply: DbReply) -> ErrorView {
    match reply {
        DbReply::Failed(text) => ErrorView::Internal("Database error: "@ + text@),
        _ => db_failure(reply),
    }
}

/// The error when the metadata of a directory cannot be read.
fn access_failed(reply: DbReply) -> (r: MetaError)
    ensures
        r@ == access_failure(reply),
{
    match reply {
        DbReply::Failed(text) => MetaError::Internal(detailed("Database error: ", text.as_str())),
        _ => db_failed(reply),
    }
}

/// The creation of a node with standard permissions.
pub struct CreateNode {
    pub parent: i64,
    pub name: String,
    pub kind: EntryType,
    pub now: i64,
    pub phase: NodePhase,
}

/// How far the creation of a node has come.
pub enum NodePhase {
    /// The parent is looked for.
    Parent,
    /// The entries of the parent are read.
    Entries,
    /// A number is asked for.
    Id,
    /// The metadata are inserted.
    Meta(i64),
    /// The entry is inserted.
    Entry(i64),
}

/// The request that inserts the metadata of a new node.
pub open spec fn insert_node(kind: EntryType, ino: i64, now: i64) -> DbRequestView {
    match kind {
        EntryType::Directory => DbRequestView::InsertDir(
            new_dir(ino, Permission { mode: STANDARD_DIR_MODE, uid: 0, gid: 0 }, now),
        ),
        EntryType::File => DbRequestView::InsertFile(
            new_file(ino, Permission { mode: STANDARD_FILE_MODE, uid: 0, gid: 0 }, now),
        ),
    }
}

impl CreateNode {
    /// The state in another phase.
    pub open spec fn at(self, phase: NodePhase) -> CreateNode {
        CreateNode { phase, ..self }
    }
}

impl DbOperation for CreateNode {
    type State = CreateNode;

    type Output = i64;

    type Shown = i64;

    open spec fn state(self) -> CreateNode {
        self
    }

    open spec fn shown(out: i64) -> i64 {
        out
    }

    open spec fn asks(s: CreateNode) -> DbRequestView {
        match s.phase {
            NodePhase::Parent => DbRequestView::FindDir(s.parent),
            NodePhase::Entries => DbRequestView::FindEntries(s.parent),
            NodePhase::Id => DbRequestView::NewId,
            NodePhase::Meta(ino) => insert_node(s.kind, ino, s.now),
            NodePhase::Entry(ino) => DbRequestView::InsertEntry(
                ino,
                EntryView { parent: s.parent, name: s.name@, entry_type: s.kind },
            ),
        }
    }

    open spec fn after(s: CreateNode, reply: DbReply) -> StepView<CreateNode, i64> {
        match s.phase {
            NodePhase::Parent => match reply {
                DbReply::Dir(Some(_)) => StepView::Next(s.at(NodePhase::Entries)),
                DbReply::Dir(None) => StepView::Done(Err(ErrorView::ParentNotFound(s.parent))),
                _ => StepView::Done(Err(access_failure(reply))),
            },
            NodePhase::Entries => match reply {
                DbReply::Entries(rows) => if find_content(rows@, s.name@) is Some {
                    StepView::Done(
                        Err(ErrorView::AlreadyExists { parent: s.parent, name: s.name@ }),
                    )
                } else {
                    StepView::Next(s.at(NodePhase::Id))
                },
                _ => StepView::Done(Err(db_failure(reply))),
            },
            NodePhase::Id => match reply {
                DbReply::Id(ino) => StepView::Next(s.at(NodePhase::Meta(ino))),
                _ => StepView::Done(Err(db_failure(reply))),
            },
            NodePhase::Meta(ino) => match reply {
                DbReply::Done => StepView::Next(s.at(NodePhase::Entry(ino))),
                _ => StepView::Done(Err(db_failure(reply))),
            },
            NodePhase::Entry(ino) => match reply {
                DbReply::Done => StepView::Done(Ok(ino)),
                _ => StepView::Done(Err(db_failure(reply))),
            },
        }
    }

    fn request(&self) -> (r: DbRequest) {
        match &self.phase {
            NodePhase::Parent => DbRequest::FindDir(self.parent),
            NodePhase::Entries => DbRequest::FindEntries(self.parent),
            NodePhase::Id => DbRequest::NewId,
            NodePhase::Meta(ino) => match self.kind {
                EntryType::Directory => DbRequest::InsertDir(
                    AccessMetaModel {
                        inode: *ino,
                        permission: Permission::new(STANDARD_DIR_MODE, 0, 0),
                        access_time: self.now,
                        modify_time: self.now,
                        create_time: self.now,
                        nlink: 2,
                    },
                ),
                EntryType::File => DbRequest::InsertFile(
                    FileMetaModel {
                        inode: *ino,
                        size: 0,
                        permission: Permission::new(STANDARD_FILE_MODE, 0, 0),
                        access_time: self.now,
                        modify_time: self.now,
                        create_time: self.now,
                        nlink: 1,
                    },
                ),
            },
            NodePhase::Entry(ino) => DbRequest::InsertEntry(
                ContentMetaModel {
                    inode: *ino,
                    parent_inode: self.parent,
                    entry_name: self.name.clone(),
                    entry_type: self.kind,
                },
            ),
        }
    }

    fn resume(self, reply: DbReply) -> (r: Step<Self, i64>) {
        let CreateNode { parent, name, kind, now, phase } = self;
        let next = match phase {
            NodePhase::Parent => match reply {
                DbReply::Dir(Some(_)) => NodePhase::Entries,
                DbReply::Dir(None) => return Step::Done(Err(MetaError::ParentNotFound(parent))),
                _ => return Step::Done(Err(access_failed(reply))),
            },
            NodePhase::Entries => match reply {
                DbReply::Entries(rows) => {
                    if find_entry(&rows, &name).is_some() {
                        return Step::Done(Err(MetaError::AlreadyExists { parent, name }));
                    }
                    NodePhase::Id
                },
                _ => return Step::Done(Err(db_failed(reply))),
            },
            NodePhase::Id => match reply {
                DbReply::Id(ino) => NodePhase::Meta(ino),
                _ => return Step::Done(Err(db_failed(reply))),
            },
            NodePhase::Meta(ino) => match reply {
                DbReply::Done => NodePhase::Entry(ino),
                _ => return Step::Done(Err(db_failed(reply))),
            },
            NodePhase::Entry(ino) => match reply {
                DbReply::Done => return Step::Done(Ok(ino)),
                _ => return Step::Done(Err(db_failed(reply))),
            },
        };
        Step::Next(CreateNode { parent, name, kind, now, phase: next })
    }
}

/// The preparation of the root directory.
pub struct InitRoot {
    pub now: i64,
    /// Whether the root is known to be missing.
    pub missing: bool,
}

/// The metadata of the root directory.
pub open spec fn root_dir(now: i64) -> AccessMetaModel {
    new_dir(1, Permission { mode: STANDARD_DIR_MODE, uid: 0, gid: 0 }, now)
}

impl DbOperation for InitRoot {
    type State = InitRoot;

    type Output = ();

    type Shown = ();

    open spec fn state(self) -> InitRoot {
        self
    }

    open spec fn shown(out: ()) -> () {
        out
    }

    open spec fn asks(s: InitRoot) -> DbRequestView {
        if s.missing {
            DbRequestView::InsertDir(root_dir(s.now))
        } else {
            DbRequestView::FindDir(1)
        }
    }

    open spec fn after(s: InitRoot, reply: DbReply) -> StepView<InitRoot, ()> {
        match reply {
            DbReply::Dir(Some(_)) => StepView::Done(Ok(())),
            DbReply::Dir(None) => StepView::Next(InitRoot { now: s.now, missing: true }),
            DbReply::Done => StepView::Done(Ok(())),
            _ => StepView::Done(
                Err(
                    if s.missing {
                        db_failure(reply)
                    } else {
                        access_failure(reply)
                    },
                ),
            ),
        }
    }

    fn request(&self) -> (r: DbRequest) {
        if self.missing {
            DbRequest::InsertDir(
                AccessMetaModel {
                    inode: 1,
                    permission: Permission::new(STANDARD_DIR_MODE, 0, 0),
                    access_time: self.now,
                    modify_time: self.now,
                    create_time: self.now,
                    nlink: 2,
                },
            )
        } else {
            DbRequest::FindDir(1)
        }
    }

    fn resume(self, reply: DbReply) -> (r: Step<Self, ()>) {
        match reply {
            DbReply::Dir(Some(_)) => Step::Done(Ok(())),
            DbReply::Dir(None) => Step::Next(InitRoot { now: self.now, missing: true }),
            DbReply::Done => Step::Done(Ok(())),
            _ => {
                if self.missing {
                    Step::Done(Err(db_failed(reply)))
                } else {
                    Step::Done(Err(access_failed(reply)))
                }
            },
        }
    }
}

} // verus!
