//! File system operations on the key-value service that several clients make
//! at the same time: the keys of an entry and the names in its directory are
//! written in one transaction, on condition that nobody wrote them since they
//! were read.

use crate::meta::entities::{EtcdDirChildren, EtcdEntryInfo, EtcdForwardEntry, EtcdPlacedEntry};
use crate::meta::etcd::cas::{internal, internal_error, Change};
use crate::meta::etcd::keys::etcd_children_key;
use crate::meta::etcd::kv::{
    distinct, has_shape, name_set, tidy, views, Check, CheckView, Key, KeyView, Meaning, Operation,
    Reply, Request, RequestView, Shape, Value, Write, WriteView,
};
use crate::meta::etcd::store::{as_read, check_as_read};
use crate::meta::permission::Permission;
use crate::meta::store::{detailed, ErrorView, MetaError, Step, StepView};
use vstd::prelude::*;
use vstd::string::*;

verus! {

/// How often an operation that others disturb is tried.
pub const NODE_TRIES: u32 = 10;

/// The metadata of a new file or directory.
pub open spec fn fresh_info(is_file: bool, now: i64) -> EtcdEntryInfo {
    EtcdEntryInfo {
        is_file,
        size: if is_file {
            Some(0i64)
        } else {
            None
        },
        version: if is_file {
            Some(0i32)
        } else {
            None
        },
        permission: Permission {
            mode: if is_file {
                0o644
            } else {
                0o40755
            },
            uid: 0,
            gid: 0,
        },
        access_time: now,
        modify_time: now,
        create_time: now,
        nlink: if is_file {
            1
        } else {
            2
        },
    }
}

/// The metadata of a new file or directory.
fn make_fresh_info(is_file: bool, now: i64) -> (r: EtcdEntryInfo)
    ensures
        r == fresh_info(is_file, now),
{
    EtcdEntryInfo {
        is_file,
        size: if is_file {
            Some(0i64)
        } else {
            None
        },
        version: if is_file {
            Some(0i32)
        } else {
            None
        },
        permission: Permission {
            mode: if is_file {
                0o644
            } else {
                0o40755
            },
            uid: 0,
            gid: 0,
        },
        access_time: now,
        modify_time: now,
        create_time: now,
        nlink: if is_file {
            1
        } else {
            2
        },
    }
}

/// The error of an operation that others disturbed at every try.
pub open spec fn exhausted(parent: i64) -> ErrorView {
    ErrorView::Internal("CAS max retries exceeded for "@ + KeyView::Children(parent).text())
}

/// The error of an operation that others disturbed at every try.
fn make_exhausted(parent: i64) -> (r: MetaError)
    ensures
        r@ == exhausted(parent),
{
    MetaError::Internal(
        detailed("CAS max retries exceeded for ", etcd_children_key(parent).as_str()),
    )
}

/// The error of a read of names that failed.
pub open spec fn names_failure(reply: Reply) -> ErrorView {
    match reply {
        Reply::Malformed(_) => internal("Failed to parse children: "@, reply),
        _ => internal("Failed to get key for CAS: "@, reply),
    }
}

/// The error of a read of names that failed.
fn names_error(reply: Reply) -> (r: MetaError)
    ensures
        r@ == names_failure(reply),
{
    match reply {
        Reply::Malformed(text) => internal_error(
            "Failed to parse children: ",
            Reply::Malformed(text),
        ),
        _ => internal_error("Failed to get key for CAS: ", reply),
    }
}

/// Names as they were read, with the revision of their last write if there is one.
pub struct NamesRead {
    pub names: Vec<String>,
    pub revision: Option<i64>,
}

/// Names as they were read, as a set.
pub struct NamesSeen {
    pub names: Set<Seq<char>>,
    pub revision: Option<i64>,
}

impl View for NamesRead {
    type V = NamesSeen;

    open spec fn view(&self) -> NamesSeen {
        NamesSeen { names: name_set(self.names@), revision: self.revision }
    }
}

impl NamesRead {
    /// Whether no name occurs twice.
    pub open spec fn tidy(self) -> bool {
        distinct(self.names@)
    }
}

/// The names that a reply tells; a key that is absent holds none.
pub open spec fn names_told(reply: Reply) -> Option<NamesSeen> {
    match reply {
        Reply::Value(Some((Value::Children(c), revision))) => Some(
            NamesSeen { names: name_set(c.children@), revision: Some(revision) },
        ),
        Reply::Value(_) => Some(NamesSeen { names: Set::empty(), revision: None }),
        _ => None,
    }
}

/// The names that a reply tells, or the error.
fn take_names(reply: Reply) -> (r: Result<NamesRead, MetaError>)
    requires
        reply matches Reply::Value(Some((v, _))) ==> has_shape(v, Shape::Children),
    ensures
        match r {
            Ok(read) => names_told(reply) == Some(read@) && read.tidy(),
            Err(e) => names_told(reply) is None && e@ == names_failure(reply),
        },
{
    match reply {
        Reply::Value(Some((Value::Children(c), revision))) => Ok(
            NamesRead { names: c.children, revision: Some(revision) },
        ),
        Reply::Value(_) => {
            let names: Vec<String> = Vec::new();
            assert(name_set(names@) =~= Set::empty());
            Ok(NamesRead { names, revision: None })
        },
        _ => Err(names_error(reply)),
    }
}

/// The write of the names in a directory.
pub open spec fn put_names(ino: i64, names: Set<Seq<char>>) -> WriteView {
    WriteView::Put(KeyView::Children(ino), Meaning::Children { inode: ino, names })
}

/// The write of the names in a directory after a change.
fn write_names(ino: i64, names: &Vec<String>, change: Change) -> (r: Write)
    ensures
        r@ == put_names(ino, change.applied(name_set(names@))),
        distinct(names@) ==> (r matches Write::Put(_, v) && tidy(v)),
{
    let children = change.apply(names);
    Write::Put(
        Key::Children(ino),
        Value::Children(EtcdDirChildren { inode: ino, children }),
    )
}

/// Creation of a file or a directory. All keys and the names in the parent are written in one
/// transaction, on condition that the name is free and that the names are as they were read.
pub struct CreateNode {
    pub parent: i64,
    pub name: String,
    pub is_file: bool,
    pub now: i64,
    /// How often the transaction was tried before.
    pub retry: u32,
    pub phase: CreateNodePhase,
}

/// How far a creation has come.
pub enum CreateNodePhase {
    /// The metadata of the parent are read.
    Parent,
    /// A number is asked for.
    Id,
    /// The names in the parent are read.
    Names(i64),
    /// The keys and the names are written.
    Commit(i64, NamesRead),
    /// The transaction was refused; the name is looked up to tell why.
    Refused(i64),
}

/// The state of a creation.
pub struct CreateNodeState {
    pub parent: i64,
    pub name: String,
    pub is_file: bool,
    pub now: i64,
    pub retry: u32,
    pub phase: CreateNodeStage,
}

/// How far a creation has come, with the names as a set.
pub enum CreateNodeStage {
    Parent,
    Id,
    Names(i64),
    Commit(i64, NamesSeen),
    Refused(i64),
}

impl CreateNodeState {
    /// The state at another stage.
    pub open spec fn at(self, phase: CreateNodeStage) -> CreateNodeState {
        CreateNodeState { phase, ..self }
    }

    /// The key of the name.
    pub open spec fn key(self) -> KeyView {
        KeyView::Forward(self.parent, self.name@)
    }

    /// The names are read again, unless the transaction was tried often enough.
    pub open spec fn again(self, ino: i64) -> StepView<CreateNodeState, i64> {
        if self.retry + 1 < NODE_TRIES {
            StepView::Next(
                CreateNodeState {
                    retry: (self.retry + 1) as u32,
                    phase: CreateNodeStage::Names(ino),
                    ..self
                },
            )
        } else {
            StepView::Done(Err(exhausted(self.parent)))
        }
    }

    /// The conditions of the creation.
    pub open spec fn checks(self, seen: NamesSeen) -> Seq<CheckView> {
        seq![
            CheckView::Absent(self.key()),
            as_read(KeyView::Children(self.parent), seen.revision),
        ]
    }

    /// The writes of the creation, with the names that the parent had.
    pub open spec fn writes(self, ino: i64, names: Set<Seq<char>>) -> Seq<WriteView> {
        let both = Seq::empty().push(
            WriteView::Put(
                self.key(),
                Meaning::Forward {
                    parent: self.parent,
                    name: self.name@,
                    inode: ino,
                    is_file: self.is_file,
                },
            ),
        ).push(
            WriteView::Put(
                KeyView::Entry(ino),
                Meaning::Placed {
                    info: fresh_info(self.is_file, self.now),
                    parent: self.parent,
                    name: self.name@,
                },
            ),
        );
        let own = if self.is_file {
            both
        } else {
            both.push(put_names(ino, Set::empty()))
        };
        own.push(put_names(self.parent, names.insert(self.name@)))
    }
}

impl CreateNode {
    /// The creation in its first state; the root needs not be looked for.
    pub fn start(parent: i64, name: String, is_file: bool, now: i64) -> (r: CreateNode)
        ensures
            r.state() == (CreateNodeState {
                parent,
                name,
                is_file,
                now,
                retry: 0,
                phase: if parent == 1 {
                    CreateNodeStage::Id
                } else {
                    CreateNodeStage::Parent
                },
            }),
            r.ready(),
    {
        let phase = if parent == 1 {
            CreateNodePhase::Id
        } else {
            CreateNodePhase::Parent
        };
        CreateNode { parent, name, is_file, now, retry: 0, phase }
    }
}

impl Operation for CreateNode {
    type State = CreateNodeState;

    type Output = i64;

    type Shown = i64;

    open spec fn state(self) -> CreateNodeState {
        CreateNodeState {
            parent: self.parent,
            name: self.name,
            is_file: self.is_file,
            now: self.now,
            retry: self.retry,
            phase: match self.phase {
                CreateNodePhase::Parent => CreateNodeStage::Parent,
                CreateNodePhase::Id => CreateNodeStage::Id,
                CreateNodePhase::Names(ino) => CreateNodeStage::Names(ino),
                CreateNodePhase::Commit(ino, read) => CreateNodeStage::Commit(ino, read@),
                CreateNodePhase::Refused(ino) => CreateNodeStage::Refused(ino),
            },
        }
    }

    open spec fn shown(out: i64) -> i64 {
        out
    }

    open spec fn ready(self) -> bool {
        self.phase matches CreateNodePhase::Commit(_, read) ==> read.tidy()
    }

    open spec fn asks(s: CreateNodeState) -> RequestView {
        match s.phase {
            CreateNodeStage::Parent => RequestView::Get(KeyView::Entry(s.parent), Shape::Placed),
            CreateNodeStage::Id => RequestView::NewId,
            CreateNodeStage::Names(_) => RequestView::Get(
                KeyView::Children(s.parent),
                Shape::Children,
            ),
            CreateNodeStage::Commit(ino, seen) => RequestView::Commit {
                checks: s.checks(seen),
                writes: s.writes(ino, seen.names),
            },
            CreateNodeStage::Refused(_) => RequestView::Get(s.key(), Shape::Forward),
        }
    }

    open spec fn after(s: CreateNodeState, reply: Reply) -> StepView<CreateNodeState, i64> {
        match s.phase {
            CreateNodeStage::Parent => match reply {
                Reply::Value(Some((Value::Placed(e), _))) => if e.info.is_file {
                    StepView::Done(Err(ErrorView::ParentNotFound(s.parent)))
                } else {
                    StepView::Next(s.at(CreateNodeStage::Id))
                },
                _ => StepView::Done(Err(ErrorView::ParentNotFound(s.parent))),
            },
            CreateNodeStage::Id => match reply {
                Reply::Id(ino) => StepView::Next(s.at(CreateNodeStage::Names(ino))),
                Reply::Refused(e) => StepView::Done(Err(e@)),
                _ => StepView::Done(Err(internal(""@, reply))),
            },
            CreateNodeStage::Names(ino) => match names_told(reply) {
                Some(seen) => StepView::Next(s.at(CreateNodeStage::Commit(ino, seen))),
                None => StepView::Done(Err(names_failure(reply))),
            },
            CreateNodeStage::Commit(ino, _) => match reply {
                Reply::Committed(true) => StepView::Done(Ok(ino)),
                Reply::Committed(false) => StepView::Next(s.at(CreateNodeStage::Refused(ino))),
                Reply::Malformed(text) => StepView::Done(Err(ErrorView::Serialization(text@))),
                _ => StepView::Done(Err(internal("Atomic create transaction failed: "@, reply))),
            },
            CreateNodeStage::Refused(ino) => match reply {
                Reply::Value(None) => s.again(ino),
                Reply::Failed(_) => StepView::Done(Err(read_failure(s.key().text(), reply))),
                _ => StepView::Done(
                    Err(ErrorView::AlreadyExists { parent: s.parent, name: s.name@ }),
                ),
            },
        }
    }

    fn request(&self) -> (r: Request) {
        match &self.phase {
            CreateNodePhase::Parent => Request::Get(Key::Entry(self.parent), Shape::Placed),
            CreateNodePhase::Id => Request::NewId,
            CreateNodePhase::Names(_) => Request::Get(Key::Children(self.parent), Shape::Children),
            CreateNodePhase::Commit(ino, read) => {
                let mut checks: Vec<Check> = Vec::new();
                checks.push(
                    Check::Absent(Key::Forward { parent: self.parent, name: self.name.clone() }),
                );
                checks.push(check_as_read(Key::Children(self.parent), read.revision));
                let mut writes: Vec<Write> = Vec::new();
                writes.push(
                    Write::Put(
                        Key::Forward { parent: self.parent, name: self.name.clone() },
                        Value::Forward(
                            EtcdForwardEntry {
                                parent_inode: self.parent,
                                name: self.name.clone(),
                                inode: *ino,
                                is_file: self.is_file,
                            },
                        ),
                    ),
                );
                writes.push(
                    Write::Put(
                        Key::Entry(*ino),
                        Value::Placed(
                            EtcdPlacedEntry {
                                info: make_fresh_info(self.is_file, self.now),
                                parent_inode: self.parent,
                                entry_name: self.name.clone(),
                            },
                        ),
                    ),
                );
                if !self.is_file {
                    let children: Vec<String> = Vec::new();
                    assert(name_set(children@) =~= Set::empty());
                    writes.push(
                        Write::Put(
                            Key::Children(*ino),
                            Value::Children(EtcdDirChildren { inode: *ino, children }),
                        ),
                    );
                }
                writes.push(
                    write_names(self.parent, &read.names, Change::Add(self.name.clone())),
                );
                assert(views(checks@) =~= Self::asks(self.state())->checks);
                assert(views(writes@) =~= Self::asks(self.state())->writes);
                Request::Commit { checks, writes }
            },
            CreateNodePhase::Refused(_) => Request::Get(
                Key::Forward { parent: self.parent, name: self.name.clone() },
                Shape::Forward,
            ),
        }
    }

    fn resume(self, reply: Reply) -> (r: Step<Self, i64>) {
        let CreateNode { parent, name, is_file, now, retry, phase } = self;
        let mut tries: u32 = retry;
        let next = match phase {
            CreateNodePhase::Parent => match reply {
                Reply::Value(Some((Value::Placed(e), _))) => {
                    if e.info.is_file {
                        return Step::Done(Err(MetaError::ParentNotFound(parent)));
                    }
                    CreateNodePhase::Id
                },
                _ => return Step::Done(Err(MetaError::ParentNotFound(parent))),
            },
            CreateNodePhase::Id => match reply {
                Reply::Id(ino) => CreateNodePhase::Names(ino),
                Reply::Refused(e) => return Step::Done(Err(e)),
                _ => return Step::Done(Err(internal_error("", reply))),
            },
            CreateNodePhase::Names(ino) => match take_names(reply) {
                Ok(read) => CreateNodePhase::Commit(ino, read),
                Err(e) => return Step::Done(Err(e)),
            },
            CreateNodePhase::Commit(ino, _) => match reply {
                Reply::Committed(true) => return Step::Done(Ok(ino)),
                Reply::Committed(false) => CreateNodePhase::Refused(ino),
                Reply::Malformed(text) => return Step::Done(Err(MetaError::Serialization(text))),
                _ => {
                    return Step::Done(
                        Err(internal_error("Atomic create transaction failed: ", reply)),
                    );
                },
            },
            CreateNodePhase::Refused(ino) => match reply {
                Reply::Value(None) => {
                    if retry >= NODE_TRIES - 1 {
                        return Step::Done(Err(make_exhausted(parent)));
                    }
                    tries = retry + 1;
                    CreateNodePhase::Names(ino)
                },
                Reply::Failed(text) => {
                    return Step::Done(
                        Err(read_error(&Key::Forward { parent, name }, Reply::Failed(text))),
                    );
                },
                _ => return Step::Done(Err(MetaError::AlreadyExists { parent, name })),
            },
        };
        Step::Next(CreateNode { parent, name, is_file, now, retry: tries, phase: next })
    }
}

/// The error of a read that failed, with its key.
pub open spec fn read_failure(key: Seq<char>, reply: Reply) -> ErrorView {
    match reply {
        Reply::Malformed(text) => ErrorView::Internal("Failed to parse "@ + key + ": "@ + text@),
        Reply::Failed(text) => ErrorView::Internal("Failed to get key "@ + key + ": "@ + text@),
        _ => ErrorView::Internal("Failed to get key "@ + key),
    }
}

/// The error of a read that failed, with its key.
pub fn read_error(key: &Key, reply: Reply) -> (r: MetaError)
    ensures
        r@ == read_failure(key@.text(), reply),
{
    let name = key.text();
    match reply {
        Reply::Malformed(text) => {
            let mut line = detailed("Failed to parse ", name.as_str());
            line.append(": ");
            line.append(text.as_str());
            MetaError::Internal(line)
        },
        Reply::Failed(text) => {
            let mut line = detailed("Failed to get key ", name.as_str());
            line.append(": ");
            line.append(text.as_str());
            MetaError::Internal(line)
        },
        _ => MetaError::Internal(detailed("Failed to get key ", name.as_str())),
    }
}

/// Removal of a file or of an empty directory. All keys are deleted and the name is taken out of
/// the names in the parent in one transaction, on condition that what was read is as it was.
pub struct RemoveNode {
    pub parent: i64,
    pub name: String,
    pub directory: bool,
    /// How often the removal was begun before.
    pub retry: u32,
    pub phase: RemoveNodePhase,
}

/// What a removal has found of the name: the inode, and the revision of the name.
#[derive(Clone, Copy)]
pub struct Found {
    pub ino: i64,
    pub revision: i64,
}

/// How far a removal has come.
pub enum RemoveNodePhase {
    /// The name is looked up.
    Source,
    /// The names in the directory are read.
    OwnNames(Found),
    /// The names in the parent are read; the revision is that of the names in the directory.
    Names(Found, Option<i64>),
    /// The keys are deleted and the names are written.
    Commit(Found, Option<i64>, NamesRead),
}

/// The state of a removal.
pub struct RemoveNodeState {
    pub parent: i64,
    pub name: String,
    pub directory: bool,
    pub retry: u32,
    pub phase: RemoveNodeStage,
}

/// How far a removal has come, with the names as a set.
pub enum RemoveNodeStage {
    Source,
    OwnNames(Found),
    Names(Found, Option<i64>),
    Commit(Found, Option<i64>, NamesSeen),
}

impl RemoveNodeState {
    /// The state at another stage.
    pub open spec fn at(self, phase: RemoveNodeStage) -> RemoveNodeState {
        RemoveNodeState { phase, ..self }
    }

    /// The key of the name.
    pub open spec fn key(self) -> KeyView {
        KeyView::Forward(self.parent, self.name@)
    }

    /// The removal is begun anew, unless it was begun often enough.
    pub open spec fn again(self) -> StepView<RemoveNodeState, ()> {
        if self.retry + 1 < NODE_TRIES {
            StepView::Next(
                RemoveNodeState {
                    retry: (self.retry + 1) as u32,
                    phase: RemoveNodeStage::Source,
                    ..self
                },
            )
        } else {
            StepView::Done(Err(exhausted(self.parent)))
        }
    }

    /// The conditions of the removal.
    pub open spec fn checks(self, found: Found, own: Option<i64>, seen: NamesSeen) -> Seq<
        CheckView,
    > {
        let both = Seq::empty().push(CheckView::Unchanged(self.key(), found.revision)).push(
            as_read(KeyView::Children(self.parent), seen.revision),
        );
        if self.directory {
            both.push(as_read(KeyView::Children(found.ino), own))
        } else {
            both
        }
    }

    /// The writes of the removal, with the names that the parent had.
    pub open spec fn writes(self, ino: i64, names: Set<Seq<char>>) -> Seq<WriteView> {
        let both = Seq::empty().push(WriteView::Delete(self.key())).push(
            WriteView::Delete(KeyView::Entry(ino)),
        );
        let own = if self.directory {
            both.push(WriteView::Delete(KeyView::Children(ino)))
        } else {
            both
        };
        own.push(put_names(self.parent, names.remove(self.name@)))
    }
}

impl RemoveNode {
    /// The removal in its first state.
    pub fn start(parent: i64, name: String, directory: bool) -> (r: RemoveNode)
        ensures
            r.state() == (RemoveNodeState {
                parent,
                name,
                directory,
                retry: 0,
                phase: RemoveNodeStage::Source,
            }),
            r.ready(),
    {
        RemoveNode { parent, name, directory, retry: 0, phase: RemoveNodePhase::Source }
    }
}

impl Operation for RemoveNode {
    type State = RemoveNodeState;

    type Output = ();

    type Shown = ();

    open spec fn state(self) -> RemoveNodeState {
        RemoveNodeState {
            parent: self.parent,
            name: self.name,
            directory: self.directory,
            retry: self.retry,
            phase: match self.phase {
                RemoveNodePhase::Source => RemoveNodeStage::Source,
                RemoveNodePhase::OwnNames(found) => RemoveNodeStage::OwnNames(found),
                RemoveNodePhase::Names(found, own) => RemoveNodeStage::Names(found, own),
                RemoveNodePhase::Commit(found, own, read) => RemoveNodeStage::Commit(
                    found,
                    own,
                    read@,
                ),
            },
        }
    }

    open spec fn shown(out: ()) -> () {
        out
    }

    open spec fn ready(self) -> bool {
        self.phase matches RemoveNodePhase::Commit(_, _, read) ==> read.tidy()
    }

    open spec fn asks(s: RemoveNodeState) -> RequestView {
        match s.phase {
            RemoveNodeStage::Source => RequestView::Get(s.key(), Shape::Forward),
            RemoveNodeStage::OwnNames(found) => RequestView::Get(
                KeyView::Children(found.ino),
                Shape::Children,
            ),
            RemoveNodeStage::Names(_, _) => RequestView::Get(
                KeyView::Children(s.parent),
                Shape::Children,
            ),
            RemoveNodeStage::Commit(found, own, seen) => RequestView::Commit {
                checks: s.checks(found, own, seen),
                writes: s.writes(found.ino, seen.names),
            },
        }
    }

    open spec fn after(s: RemoveNodeState, reply: Reply) -> StepView<RemoveNodeState, ()> {
        match s.phase {
            RemoveNodeStage::Source => match reply {
                Reply::Value(Some((Value::Forward(e), revision))) => {
                    let found = Found { ino: e.inode, revision };
                    if s.directory && e.is_file {
                        StepView::Done(Err(ErrorView::Internal("Not a directory"@)))
                    } else if !s.directory && !e.is_file {
                        StepView::Done(Err(ErrorView::Internal("Is a directory"@)))
                    } else if s.directory {
                        StepView::Next(s.at(RemoveNodeStage::OwnNames(found)))
                    } else {
                        StepView::Next(s.at(RemoveNodeStage::Names(found, None)))
                    }
                },
                Reply::Value(_) => StepView::Done(Err(ErrorView::NotFound(s.parent))),
                _ => StepView::Done(Err(read_failure(s.key().text(), reply))),
            },
            RemoveNodeStage::OwnNames(found) => match reply {
                Reply::Value(Some((Value::Children(c), revision))) => if c.children@.len() > 0 {
                    StepView::Done(Err(ErrorView::DirectoryNotEmpty(found.ino)))
                } else {
                    StepView::Next(s.at(RemoveNodeStage::Names(found, Some(revision))))
                },
                Reply::Value(_) => StepView::Next(s.at(RemoveNodeStage::Names(found, None))),
                _ => StepView::Done(
                    Err(read_failure(KeyView::Children(found.ino).text(), reply)),
                ),
            },
            RemoveNodeStage::Names(found, own) => match names_told(reply) {
                Some(seen) => StepView::Next(s.at(RemoveNodeStage::Commit(found, own, seen))),
                None => StepView::Done(Err(names_failure(reply))),
            },
            RemoveNodeStage::Commit(_, _, _) => match reply {
                Reply::Committed(true) => StepView::Done(Ok(())),
                Reply::Committed(false) => s.again(),
                Reply::Malformed(_) => StepView::Done(
                    Err(internal("Failed to serialize children: "@, reply)),
                ),
                _ => StepView::Done(Err(internal("Atomic delete transaction failed: "@, reply))),
            },
        }
    }

    fn request(&self) -> (r: Request) {
        match &self.phase {
            RemoveNodePhase::Source => Request::Get(
                Key::Forward { parent: self.parent, name: self.name.clone() },
                Shape::Forward,
            ),
            RemoveNodePhase::OwnNames(found) => Request::Get(
                Key::Children(found.ino),
                Shape::Children,
            ),
            RemoveNodePhase::Names(_, _) => Request::Get(
                Key::Children(self.parent),
                Shape::Children,
            ),
            RemoveNodePhase::Commit(found, own, read) => {
                let mut checks: Vec<Check> = Vec::new();
                checks.push(
                    Check::Unchanged(
                        Key::Forward { parent: self.parent, name: self.name.clone() },
                        found.revision,
                    ),
                );
                checks.push(check_as_read(Key::Children(self.parent), read.revision));
                let mut writes: Vec<Write> = Vec::new();
                writes.push(
                    Write::Delete(Key::Forward { parent: self.parent, name: self.name.clone() }),
                );
                writes.push(Write::Delete(Key::Entry(found.ino)));
                if self.directory {
                    checks.push(check_as_read(Key::Children(found.ino), *own));
                    writes.push(Write::Delete(Key::Children(found.ino)));
                }
                writes.push(
                    write_names(self.parent, &read.names, Change::Remove(self.name.clone())),
                );
                assert(views(checks@) =~= Self::asks(self.state())->checks);
                assert(views(writes@) =~= Self::asks(self.state())->writes);
                Request::Commit { checks, writes }
            },
        }
    }

    fn resume(self, reply: Reply) -> (r: Step<Self, ()>) {
        let RemoveNode { parent, name, directory, retry, phase } = self;
        let mut tries: u32 = retry;
        let next = match phase {
            RemoveNodePhase::Source => match reply {
                Reply::Value(Some((Value::Forward(e), revision))) => {
                    if directory && e.is_file {
                        return Step::Done(
                            Err(MetaError::Internal(String::from_str("Not a directory"))),
                        );
                    }
                    if !directory && !e.is_file {
                        return Step::Done(
                            Err(MetaError::Internal(String::from_str("Is a directory"))),
                        );
                    }
                    let found = Found { ino: e.inode, revision };
                    if directory {
                        RemoveNodePhase::OwnNames(found)
                    } else {
                        RemoveNodePhase::Names(found, None)
                    }
                },
                Reply::Value(_) => return Step::Done(Err(MetaError::NotFound(parent))),
                _ => return Step::Done(Err(read_error(&Key::Forward { parent, name }, reply))),
            },
            RemoveNodePhase::OwnNames(found) => match reply {
                Reply::Value(Some((Value::Children(c), revision))) => {
                    if c.children.len() > 0 {
                        return Step::Done(Err(MetaError::DirectoryNotEmpty(found.ino)));
                    }
                    RemoveNodePhase::Names(found, Some(revision))
                },
                Reply::Value(_) => RemoveNodePhase::Names(found, None),
                _ => return Step::Done(Err(read_error(&Key::Children(found.ino), reply))),
            },
            RemoveNodePhase::Names(found, own) => match take_names(reply) {
                Ok(read) => RemoveNodePhase::Commit(found, own, read),
                Err(e) => return Step::Done(Err(e)),
            },
            RemoveNodePhase::Commit(_, _, _) => match reply {
                Reply::Committed(true) => return Step::Done(Ok(())),
                Reply::Committed(false) => {
                    if retry >= NODE_TRIES - 1 {
                        return Step::Done(Err(make_exhausted(parent)));
                    }
                    tries = retry + 1;
                    RemoveNodePhase::Source
                },
                Reply::Malformed(text) => {
                    return Step::Done(
                        Err(
                            internal_error(
                                "Failed to serialize children: ",
                                Reply::Malformed(text),
                            ),
                        ),
                    );
                },
                _ => {
                    return Step::Done(
                        Err(internal_error("Atomic delete transaction failed: ", reply)),
                    );
                },
            },
        };
        Step::Next(RemoveNode { parent, name, directory, retry: tries, phase: next })
    }
}

/// Move of a name to another name that is free. The names, the place in the metadata and the names
/// in both directories are written in one transaction, on condition that what was read is as it
/// was.
pub struct RenameNode {
    pub old_parent: i64,
    pub old_name: String,
    pub new_parent: i64,
    pub new_name: String,
    pub now: i64,
    /// How often the move was begun before.
    pub retry: u32,
    pub phase: RenameNodePhase,
}

/// What is moved: the inode and its metadata, with the revisions of the name and of the metadata.
#[derive(Clone, Copy)]
pub struct Moved {
    pub ino: i64,
    pub is_file: bool,
    pub revision: i64,
    pub info: EtcdEntryInfo,
    pub info_revision: i64,
}

/// How far a move has come.
pub enum RenameNodePhase {
    /// The old name is looked up.
    Source,
    /// The metadata are read; the revision is that of the old name.
    Info { ino: i64, is_file: bool, revision: i64 },
    /// The names in the old parent are read.
    OldNames(Moved),
    /// The names in the new parent are read, which is another directory.
    NewNames(Moved, NamesRead),
    /// Everything is written, with the names in the new parent if it is another directory.
    Commit(Moved, NamesRead, Option<NamesRead>),
    /// The transaction was refused; the old name is looked up to tell why.
    Refused,
    /// The old name is there; the new name is looked up.
    Taken,
}

/// The state of a move.
pub struct RenameNodeState {
    pub old_parent: i64,
    pub old_name: String,
    pub new_parent: i64,
    pub new_name: String,
    pub now: i64,
    pub retry: u32,
    pub phase: RenameNodeStage,
}

/// How far a move has come, with the names as sets.
pub enum RenameNodeStage {
    Source,
    Info { ino: i64, is_file: bool, revision: i64 },
    OldNames(Moved),
    NewNames(Moved, NamesSeen),
    Commit(Moved, NamesSeen, Option<NamesSeen>),
    Refused,
    Taken,
}

impl RenameNodeState {
    /// The state at another stage.
    pub open spec fn at(self, phase: RenameNodeStage) -> RenameNodeState {
        RenameNodeState { phase, ..self }
    }

    /// The key of the old name.
    pub open spec fn old_key(self) -> KeyView {
        KeyView::Forward(self.old_parent, self.old_name@)
    }

    /// The key of the new name.
    pub open spec fn new_key(self) -> KeyView {
        KeyView::Forward(self.new_parent, self.new_name@)
    }

    /// The move is begun anew, unless it was begun often enough.
    pub open spec fn again(self) -> StepView<RenameNodeState, ()> {
        if self.retry + 1 < NODE_TRIES {
            StepView::Next(
                RenameNodeState {
                    retry: (self.retry + 1) as u32,
                    phase: RenameNodeStage::Source,
                    ..self
                },
            )
        } else {
            StepView::Done(Err(exhausted(self.old_parent)))
        }
    }

    /// The conditions of the move.
    pub open spec fn checks(self, m: Moved, old: NamesSeen, new: Option<NamesSeen>) -> Seq<
        CheckView,
    > {
        let four = Seq::empty().push(CheckView::Unchanged(self.old_key(), m.revision)).push(
            CheckView::Absent(self.new_key()),
        ).push(CheckView::Unchanged(KeyView::Entry(m.ino), m.info_revision)).push(
            as_read(KeyView::Children(self.old_parent), old.revision),
        );
        match new {
            Some(seen) => four.push(as_read(KeyView::Children(self.new_parent), seen.revision)),
            None => four,
        }
    }

    /// The writes of the move, with the names that the directories had.
    pub open spec fn writes(
        self,
        ino: i64,
        is_file: bool,
        info: EtcdEntryInfo,
        old: Set<Seq<char>>,
        new: Option<Set<Seq<char>>>,
    ) -> Seq<WriteView> {
        let three = Seq::empty().push(
            WriteView::Put(
                self.new_key(),
                Meaning::Forward {
                    parent: self.new_parent,
                    name: self.new_name@,
                    inode: ino,
                    is_file,
                },
            ),
        ).push(WriteView::Delete(self.old_key())).push(
            WriteView::Put(
                KeyView::Entry(ino),
                Meaning::Placed {
                    info: EtcdEntryInfo { modify_time: self.now, ..info },
                    parent: self.new_parent,
                    name: self.new_name@,
                },
            ),
        );
        match new {
            Some(names) => three.push(
                put_names(self.old_parent, old.remove(self.old_name@)),
            ).push(put_names(self.new_parent, names.insert(self.new_name@))),
            None => three.push(
                put_names(
                    self.old_parent,
                    old.remove(self.old_name@).insert(self.new_name@),
                ),
            ),
        }
    }
}

/// The names without their revision.
pub open spec fn only_names(seen: Option<NamesSeen>) -> Option<Set<Seq<char>>> {
    match seen {
        Some(seen) => Some(seen.names),
        None => None,
    }
}

impl RenameNode {
    /// The move in its first state.
    pub fn start(
        old_parent: i64,
        old_name: String,
        new_parent: i64,
        new_name: String,
        now: i64,
    ) -> (r: RenameNode)
        ensures
            r.state() == (RenameNodeState {
                old_parent,
                old_name,
                new_parent,
                new_name,
                now,
                retry: 0,
                phase: RenameNodeStage::Source,
            }),
            r.ready(),
    {
        RenameNode {
            old_parent,
            old_name,
            new_parent,
            new_name,
            now,
            retry: 0,
            phase: RenameNodePhase::Source,
        }
    }
}

impl Operation for RenameNode {
    type State = RenameNodeState;

    type Output = ();

    type Shown = ();

    open spec fn state(self) -> RenameNodeState {
        RenameNodeState {
            old_parent: self.old_parent,
            old_name: self.old_name,
            new_parent: self.new_parent,
            new_name: self.new_name,
            now: self.now,
            retry: self.retry,
            phase: match self.phase {
                RenameNodePhase::Source => RenameNodeStage::Source,
                RenameNodePhase::Info { ino, is_file, revision } => RenameNodeStage::Info {
                    ino,
                    is_file,
                    revision,
                },
                RenameNodePhase::OldNames(m) => RenameNodeStage::OldNames(m),
                RenameNodePhase::NewNames(m, old) => RenameNodeStage::NewNames(m, old@),
                RenameNodePhase::Commit(m, old, new) => RenameNodeStage::Commit(
                    m,
                    old@,
                    match new {
                        Some(read) => Some(read@),
                        None => None,
                    },
                ),
                RenameNodePhase::Refused => RenameNodeStage::Refused,
                RenameNodePhase::Taken => RenameNodeStage::Taken,
            },
        }
    }

    open spec fn shown(out: ()) -> () {
        out
    }

    open spec fn ready(self) -> bool {
        match self.phase {
            RenameNodePhase::NewNames(_, old) => old.tidy(),
            RenameNodePhase::Commit(_, old, new) => old.tidy() && (new matches Some(read)
                ==> read.tidy()),
            _ => true,
        }
    }

    open spec fn asks(s: RenameNodeState) -> RequestView {
        match s.phase {
            RenameNodeStage::Source => RequestView::Get(s.old_key(), Shape::Forward),
            RenameNodeStage::Info { ino, .. } => RequestView::Get(
                KeyView::Entry(ino),
                Shape::Placed,
            ),
            RenameNodeStage::OldNames(_) => RequestView::Get(
                KeyView::Children(s.old_parent),
                Shape::Children,
            ),
            RenameNodeStage::NewNames(_, _) => RequestView::Get(
                KeyView::Children(s.new_parent),
                Shape::Children,
            ),
            RenameNodeStage::Commit(m, old, new) => RequestView::Commit {
                checks: s.checks(m, old, new),
                writes: s.writes(m.ino, m.is_file, m.info, old.names, only_names(new)),
            },
            RenameNodeStage::Refused => RequestView::Get(s.old_key(), Shape::Forward),
            RenameNodeStage::Taken => RequestView::Get(s.new_key(), Shape::Forward),
        }
    }

    open spec fn after(s: RenameNodeState, reply: Reply) -> StepView<RenameNodeState, ()> {
        match s.phase {
            RenameNodeStage::Source => match reply {
                Reply::Value(Some((Value::Forward(e), revision))) => StepView::Next(
                    s.at(RenameNodeStage::Info { ino: e.inode, is_file: e.is_file, revision }),
                ),
                Reply::Value(_) => StepView::Done(Err(ErrorView::NotFound(s.old_parent))),
                _ => StepView::Done(Err(read_failure(s.old_key().text(), reply))),
            },
            RenameNodeStage::Info { ino, is_file, revision } => match reply {
                Reply::Value(Some((Value::Placed(e), info_revision))) => StepView::Next(
                    s.at(
                        RenameNodeStage::OldNames(
                            Moved { ino, is_file, revision, info: e.info, info_revision },
                        ),
                    ),
                ),
                Reply::Value(_) => StepView::Done(Err(ErrorView::NotFound(ino))),
                _ => StepView::Done(Err(read_failure(KeyView::Entry(ino).text(), reply))),
            },
            RenameNodeStage::OldNames(m) => match names_told(reply) {
                Some(seen) => if s.old_parent != s.new_parent {
                    StepView::Next(s.at(RenameNodeStage::NewNames(m, seen)))
                } else {
                    StepView::Next(s.at(RenameNodeStage::Commit(m, seen, None)))
                },
                None => StepView::Done(Err(names_failure(reply))),
            },
            RenameNodeStage::NewNames(m, old) => match names_told(reply) {
                Some(seen) => StepView::Next(s.at(RenameNodeStage::Commit(m, old, Some(seen)))),
                None => StepView::Done(Err(names_failure(reply))),
            },
            RenameNodeStage::Commit(_, _, _) => match reply {
                Reply::Committed(true) => StepView::Done(Ok(())),
                Reply::Committed(false) => StepView::Next(s.at(RenameNodeStage::Refused)),
                Reply::Malformed(text) => StepView::Done(Err(ErrorView::Serialization(text@))),
                _ => StepView::Done(Err(internal("Atomic rename transaction failed: "@, reply))),
            },
            RenameNodeStage::Refused => match reply {
                Reply::Value(None) => StepView::Done(Err(ErrorView::NotFound(0))),
                Reply::Failed(_) => StepView::Done(
                    Err(internal("Failed to check source key: "@, reply)),
                ),
                _ => StepView::Next(s.at(RenameNodeStage::Taken)),
            },
            RenameNodeStage::Taken => match reply {
                Reply::Value(None) => s.again(),
                Reply::Failed(_) => StepView::Done(Err(read_failure(s.new_key().text(), reply))),
                _ => StepView::Done(
                    Err(ErrorView::AlreadyExists { parent: 0, name: s.new_key().text() }),
                ),
            },
        }
    }

    fn request(&self) -> (r: Request) {
        match &self.phase {
            RenameNodePhase::Source => Request::Get(
                Key::Forward { parent: self.old_parent, name: self.old_name.clone() },
                Shape::Forward,
            ),
            RenameNodePhase::Info { ino, .. } => Request::Get(Key::Entry(*ino), Shape::Placed),
            RenameNodePhase::OldNames(_) => Request::Get(
                Key::Children(self.old_parent),
                Shape::Children,
            ),
            RenameNodePhase::NewNames(_, _) => Request::Get(
                Key::Children(self.new_parent),
                Shape::Children,
            ),
            RenameNodePhase::Commit(m, old, new) => {
                let mut checks: Vec<Check> = Vec::new();
                checks.push(
                    Check::Unchanged(
                        Key::Forward { parent: self.old_parent, name: self.old_name.clone() },
                        m.revision,
                    ),
                );
                checks.push(
                    Check::Absent(
                        Key::Forward { parent: self.new_parent, name: self.new_name.clone() },
                    ),
                );
                checks.push(Check::Unchanged(Key::Entry(m.ino), m.info_revision));
                checks.push(check_as_read(Key::Children(self.old_parent), old.revision));
                let mut writes: Vec<Write> = Vec::new();
                writes.push(
                    Write::Put(
                        Key::Forward { parent: self.new_parent, name: self.new_name.clone() },
                        Value::Forward(
                            EtcdForwardEntry {
                                parent_inode: self.new_parent,
                                name: self.new_name.clone(),
                                inode: m.ino,
                                is_file: m.is_file,
                            },
                        ),
                    ),
                );
                writes.push(
                    Write::Delete(
                        Key::Forward { parent: self.old_parent, name: self.old_name.clone() },
                    ),
                );
                writes.push(
                    Write::Put(
                        Key::Entry(m.ino),
                        Value::Placed(
                            EtcdPlacedEntry {
                                info: EtcdEntryInfo { modify_time: self.now, ..m.info },
                                parent_inode: self.new_parent,
                                entry_name: self.new_name.clone(),
                            },
                        ),
                    ),
                );
                match new {
                    Some(read) => {
                        checks.push(check_as_read(Key::Children(self.new_parent), read.revision));
                        writes.push(
                            write_names(
                                self.old_parent,
                                &old.names,
                                Change::Remove(self.old_name.clone()),
                            ),
                        );
                        writes.push(
                            write_names(
                                self.new_parent,
                                &read.names,
                                Change::Add(self.new_name.clone()),
                            ),
                        );
                    },
                    None => {
                        writes.push(
                            write_names(
                                self.old_parent,
                                &old.names,
                                Change::Replace {
                                    old_name: self.old_name.clone(),
                                    new_name: self.new_name.clone(),
                                },
                            ),
                        );
                    },
                }
                assert(views(checks@) =~= Self::asks(self.state())->checks);
                assert(views(writes@) =~= Self::asks(self.state())->writes);
                Request::Commit { checks, writes }
            },
            RenameNodePhase::Refused => Request::Get(
                Key::Forward { parent: self.old_parent, name: self.old_name.clone() },
                Shape::Forward,
            ),
            RenameNodePhase::Taken => Request::Get(
                Key::Forward { parent: self.new_parent, name: self.new_name.clone() },
                Shape::Forward,
            ),
        }
    }

    fn resume(self, reply: Reply) -> (r: Step<Self, ()>) {
        let RenameNode { old_parent, old_name, new_parent, new_name, now, retry, phase } = self;
        let mut tries: u32 = retry;
        let next = match phase {
            RenameNodePhase::Source => match reply {
                Reply::Value(Some((Value::Forward(e), revision))) => RenameNodePhase::Info {
                    ino: e.inode,
                    is_file: e.is_file,
                    revision,
                },
                Reply::Value(_) => return Step::Done(Err(MetaError::NotFound(old_parent))),
                _ => {
                    return Step::Done(
                        Err(read_error(&Key::Forward { parent: old_parent, name: old_name }, reply)),
                    );
                },
            },
            RenameNodePhase::Info { ino, is_file, revision } => match reply {
                Reply::Value(Some((Value::Placed(e), info_revision))) => RenameNodePhase::OldNames(
                    Moved { ino, is_file, revision, info: e.info, info_revision },
                ),
                Reply::Value(_) => return Step::Done(Err(MetaError::NotFound(ino))),
                _ => return Step::Done(Err(read_error(&Key::Entry(ino), reply))),
            },
            RenameNodePhase::OldNames(m) => match take_names(reply) {
                Ok(read) => if old_parent != new_parent {
                    RenameNodePhase::NewNames(m, read)
                } else {
                    RenameNodePhase::Commit(m, read, None)
                },
                Err(e) => return Step::Done(Err(e)),
            },
            RenameNodePhase::NewNames(m, old) => match take_names(reply) {
                Ok(read) => RenameNodePhase::Commit(m, old, Some(read)),
                Err(e) => return Step::Done(Err(e)),
            },
            RenameNodePhase::Commit(_, _, _) => match reply {
                Reply::Committed(true) => return Step::Done(Ok(())),
                Reply::Committed(false) => RenameNodePhase::Refused,
                Reply::Malformed(text) => return Step::Done(Err(MetaError::Serialization(text))),
                _ => {
                    return Step::Done(
                        Err(internal_error("Atomic rename transaction failed: ", reply)),
                    );
                },
            },
            RenameNodePhase::Refused => match reply {
                Reply::Value(None) => return Step::Done(Err(MetaError::NotFound(0))),
                Reply::Failed(text) => {
                    return Step::Done(
                        Err(internal_error("Failed to check source key: ", Reply::Failed(text))),
                    );
                },
                _ => RenameNodePhase::Taken,
            },
            RenameNodePhase::Taken => match reply {
                Reply::Value(None) => {
                    if retry >= NODE_TRIES - 1 {
                        return Step::Done(Err(make_exhausted(old_parent)));
                    }
                    tries = retry + 1;
                    RenameNodePhase::Source
                },
                Reply::Failed(text) => {
                    return Step::Done(
                        Err(
                            read_error(
                                &Key::Forward { parent: new_parent, name: new_name },
                                Reply::Failed(text),
                            ),
                        ),
                    );
                },
                _ => {
                    let key = Key::Forward { parent: new_parent, name: new_name };
                    return Step::Done(
                        Err(MetaError::AlreadyExists { parent: 0, name: key.text() }),
                    );
                },
            },
        };
        Step::Next(
            RenameNode {
                old_parent,
                old_name,
                new_parent,
                new_name,
                now,
                retry: tries,
                phase: next,
            },
        )
    }
}

} // verus!
