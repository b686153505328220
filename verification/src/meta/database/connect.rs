//! How the databases are reached, and the operations of the store.

use crate::meta::config::{DatabaseConfig, DatabaseType};
use crate::meta::database::listing::{
    numbers, BatchState, GetattrBatch, Lookup, Readdir, Readdirplus, ReaddirplusPhase,
};
use crate::meta::database::names::{
    Rename, RenamePhase, Rmdir, RmdirPhase, Unlink, UnlinkPhase,
};
use crate::meta::database::db::DbOperation;
use crate::meta::database::nodes::{CreateNode, InitRoot, NodePhase};
use crate::meta::database::store::{Create, CreatePhase, Getattr, Setattr, SetattrPhase};
use crate::meta::entities::EntryType;
use crate::meta::store::{ErrorView, FileAttr, MetaError, Step};
use crate::meta::types::{CreateParams, Inode, SetAttrMask};
use crate::text::texts;
use vstd::prelude::*;
use vstd::string::*;

verus! {

/// How to connect to a database. The times are in seconds.
#[derive(Debug, Clone)]
pub struct ConnectPlan {
    pub url: String,
    pub max_connections: u32,
    pub min_connections: u32,
    pub connect_timeout: u64,
    pub acquire_timeout: u64,
    pub idle_timeout: u64,
    pub max_lifetime: u64,
    /// What to execute once the connection stands.
    pub statements: Vec<String>,
}

/// A plan over views.
pub struct ConnectPlanView {
    pub url: Seq<char>,
    pub max_connections: u32,
    pub min_connections: u32,
    pub connect_timeout: u64,
    pub acquire_timeout: u64,
    pub idle_timeout: u64,
    pub max_lifetime: u64,
    pub statements: Seq<Seq<char>>,
}

impl View for ConnectPlan {
    type V = ConnectPlanView;

    open spec fn view(&self) -> ConnectPlanView {
        ConnectPlanView {
            url: self.url@,
            max_connections: self.max_connections,
            min_connections: self.min_connections,
            connect_timeout: self.connect_timeout,
            acquire_timeout: self.acquire_timeout,
            idle_timeout: self.idle_timeout,
            max_lifetime: self.max_lifetime,
            statements: texts(self.statements@),
        }
    }
}

/// Where the numbers of new inodes come from.
#[derive(Debug, Clone, Copy, PartialEq, Eq, Structural)]
pub enum IdSource {
    /// A counter table.
    Sqlite,
    /// A sequence.
    Postgres,
}

/// The plan for a kind of database, if the store can use it.
pub open spec fn connect_plan(db: DatabaseType) -> Option<ConnectPlanView> {
    match db {
        DatabaseType::Sqlite { url } => Some(
            ConnectPlanView {
                url: url@,
                max_connections: 10,
                min_connections: 2,
                connect_timeout: 30,
                acquire_timeout: 60,
                idle_timeout: 600,
                max_lifetime: 1800,
                statements: seq![
                    "PRAGMA journal_mode=WAL;"@,
                    "PRAGMA busy_timeout=10000;"@,
                    "PRAGMA synchronous=NORMAL;"@,
                ],
            },
        ),
        DatabaseType::Postgres { url } => Some(
            ConnectPlanView {
                url: url@,
                max_connections: 100,
                min_connections: 5,
                connect_timeout: 30,
                acquire_timeout: 30,
                idle_timeout: 600,
                max_lifetime: 1800,
                statements: Seq::empty(),
            },
        ),
        DatabaseType::Etcd { .. } => None,
    }
}

/// The metadata store over tables. Each operation is given in its first state, or
/// as its end where no request is needed.
pub struct DatabaseMetaStore;

impl DatabaseMetaStore {
    /// How to connect.
    pub fn create_connection(config: &DatabaseConfig) -> (r: Result<ConnectPlan, MetaError>)
        ensures
            match connect_plan(config.db_config) {
                Some(plan) => r matches Ok(p) && p@ == plan,
                None => r matches Err(e) && e@ == ErrorView::Config(
                    "Etcd backend not supported by DatabaseMetaStore. Use EtcdMetaStore instead."@,
                ),
            },
            config.db_config matches DatabaseType::Sqlite { url } ==> (r matches Ok(p) && {
                &&& p.url@ == url@
                &&& p.max_connections == 10 && p.min_connections == 2
                &&& p.connect_timeout == 30 && p.acquire_timeout == 60
                &&& p.idle_timeout == 10 * 60 && p.max_lifetime == 30 * 60
                &&& p.statements@.len() == 3
                &&& p.statements@[0]@ == "PRAGMA journal_mode=WAL;"@
                &&& p.statements@[1]@ == "PRAGMA busy_timeout=10000;"@
                &&& p.statements@[2]@ == "PRAGMA synchronous=NORMAL;"@
            }),
            config.db_config matches DatabaseType::Postgres { url } ==> (r matches Ok(p) && {
                &&& p.url@ == url@
                &&& p.max_connections == 100 && p.min_connections == 5
                &&& p.connect_timeout == 30 && p.acquire_timeout == 30
                &&& p.idle_timeout == 10 * 60 && p.max_lifetime == 30 * 60
                &&& p.statements@.len() == 0
            }),
            config.db_config is Etcd ==> r is Err,
    {
        match &config.db_config {
            DatabaseType::Sqlite { url } => {
                let mut statements: Vec<String> = Vec::new();
                statements.push(String::from_str("PRAGMA journal_mode=WAL;"));
                statements.push(String::from_str("PRAGMA busy_timeout=10000;"));
                statements.push(String::from_str("PRAGMA synchronous=NORMAL;"));
                assert(texts(statements@) =~= seq![
                    "PRAGMA journal_mode=WAL;"@,
                    "PRAGMA busy_timeout=10000;"@,
                    "PRAGMA synchronous=NORMAL;"@,
                ]);
                Ok(
                    ConnectPlan {
                        url: url.clone(),
                        max_connections: 10,
                        min_connections: 2,
                        connect_timeout: 30,
                        acquire_timeout: 60,
                        idle_timeout: 600,
                        max_lifetime: 1800,
                        statements,
                    },
                )
            },
            DatabaseType::Postgres { url } => {
                let statements: Vec<String> = Vec::new();
                assert(texts(statements@) =~= Seq::empty());
                Ok(
                    ConnectPlan {
                        url: url.clone(),
                        max_connections: 100,
                        min_connections: 5,
                        connect_timeout: 30,
                        acquire_timeout: 30,
                        idle_timeout: 600,
                        max_lifetime: 1800,
                        statements,
                    },
                )
            },
            DatabaseType::Etcd { .. } => Err(
                MetaError::Config(
                    String::from_str(
                        "Etcd backend not supported by DatabaseMetaStore. Use EtcdMetaStore instead.",
                    ),
                ),
            ),
        }
    }

    /// Where the numbers of new inodes come from.
    pub fn id_source(config: &DatabaseConfig) -> (r: Result<IdSource, MetaError>)
        ensures
            match config.db_config {
                DatabaseType::Sqlite { .. } => r == Ok::<IdSource, MetaError>(IdSource::Sqlite),
                DatabaseType::Postgres { .. } => r == Ok::<IdSource, MetaError>(IdSource::Postgres),
                DatabaseType::Etcd { .. } => r matches Err(e) && e@ == ErrorView::Config(
                    "Etcd backend not supported by DatabaseMetaStore"@,
                ),
            },
    {
        match &config.db_config {
            DatabaseType::Sqlite { .. } => Ok(IdSource::Sqlite),
            DatabaseType::Postgres { .. } => Ok(IdSource::Postgres),
            DatabaseType::Etcd { .. } => Err(
                MetaError::Config(
                    String::from_str("Etcd backend not supported by DatabaseMetaStore"),
                ),
            ),
        }
    }

    /// The root directory.
    pub fn root_ino() -> (r: Inode)
        ensures
            r == Inode(1),
    {
        Inode(1)
    }

    /// Prepares the root directory.
    pub fn init_root_directory(now: i64) -> (r: InitRoot)
        ensures
            r == (InitRoot { now, missing: false }),
    {
        InitRoot { now, missing: false }
    }

    /// Attributes of an inode.
    pub fn getattr(ino: Inode) -> (r: Getattr)
        ensures
            r == (Getattr { ino: ino.0, as_dir: false }),
    {
        Getattr { ino: ino.0, as_dir: false }
    }

    /// Attributes of several inodes.
    pub fn getattr_batch(inos: &Vec<Inode>) -> (r: Step<GetattrBatch, Vec<(Inode, FileAttr)>>)
        ensures
            match r {
                Step::Next(s) => inos@.len() > 0 && s.state() == (BatchState {
                    inos: numbers(inos@),
                    found: None,
                }),
                Step::Done(end) => inos@.len() == 0 && (end matches Ok(list) && list@
                    == Seq::<(Inode, FileAttr)>::empty()),
            },
    {
        GetattrBatch::start(inos)
    }

    /// What a name in a directory stands for.
    pub fn lookup(parent: Inode, name: String) -> (r: Lookup)
        ensures
            r == (Lookup { parent: parent.0, name }),
    {
        Lookup { parent: parent.0, name }
    }

    /// The entries of a directory.
    pub fn readdir(ino: Inode) -> (r: Readdir)
        ensures
            r == (Readdir { ino: ino.0, is_dir: false }),
    {
        Readdir { ino: ino.0, is_dir: false }
    }

    /// The entries of a directory with their attributes.
    pub fn readdirplus(ino: Inode) -> (r: Readdirplus)
        ensures
            r == (Readdirplus { ino: ino.0, phase: ReaddirplusPhase::Dir }),
    {
        Readdirplus { ino: ino.0, phase: ReaddirplusPhase::Dir }
    }

    /// Creates a file or a directory.
    pub fn create(params: CreateParams, now: i64) -> (r: Create)
        ensures
            r == (Create { params, now, phase: CreatePhase::Begin }),
    {
        Create { params, now, phase: CreatePhase::Begin }
    }

    /// Sets the attributes of the mask; an empty mask reads them only.
    pub fn setattr(ino: Inode, mask: SetAttrMask) -> (r: Setattr)
        ensures
            r == (Setattr {
                ino: ino.0,
                mask,
                phase: if mask == SetAttrMask::nothing() {
                    SetattrPhase::ReadBack(Getattr { ino: ino.0, as_dir: false })
                } else {
                    SetattrPhase::Begin
                },
            }),
    {
        if mask.is_empty() {
            Setattr {
                ino: ino.0,
                mask,
                phase: SetattrPhase::ReadBack(Getattr { ino: ino.0, as_dir: false }),
            }
        } else {
            Setattr { ino: ino.0, mask, phase: SetattrPhase::Begin }
        }
    }

    /// Moves a name.
    pub fn rename(old_parent: Inode, old_name: String, new_parent: Inode, new_name: String) -> (r:
        Rename)
        ensures
            r == (Rename {
                old_parent: old_parent.0,
                old_name,
                new_parent: new_parent.0,
                new_name,
                phase: RenamePhase::Begin,
            }),
    {
        Rename {
            old_parent: old_parent.0,
            old_name,
            new_parent: new_parent.0,
            new_name,
            phase: RenamePhase::Begin,
        }
    }

    /// Removes a file.
    pub fn unlink(parent: Inode, name: String) -> (r: Unlink)
        ensures
            r == (Unlink { parent: parent.0, name, phase: UnlinkPhase::Begin }),
    {
        Unlink { parent: parent.0, name, phase: UnlinkPhase::Begin }
    }

    /// Removes an empty directory.
    pub fn rmdir(parent: Inode, name: String) -> (r: Rmdir)
        ensures
            r == (Rmdir { parent: parent.0, name, phase: RmdirPhase::Begin }),
    {
        Rmdir { parent: parent.0, name, phase: RmdirPhase::Begin }
    }

    /// Makes a directory with standard permissions.
    pub fn create_directory(parent: i64, name: String, now: i64) -> (r: CreateNode)
        ensures
            r == (CreateNode {
                parent,
                name,
                kind: EntryType::Directory,
                now,
                phase: NodePhase::Parent,
            }),
    {
        CreateNode { parent, name, kind: EntryType::Directory, now, phase: NodePhase::Parent }
    }

    /// Makes a file with standard permissions.
    pub fn create_file_internal(parent: i64, name: String, now: i64) -> (r: CreateNode)
        ensures
            r == (CreateNode {
                parent,
                name,
                kind: EntryType::File,
                now,
                phase: NodePhase::Parent,
            }),
    {
        CreateNode { parent, name, kind: EntryType::File, now, phase: NodePhase::Parent }
    }
}

} // verus!
