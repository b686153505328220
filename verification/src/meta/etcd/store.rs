//! File system operations on the key-value service.
//!
//! Each operation reads the keys that it depends on and makes its writes at once: all of them, if
//! what it read still holds, or none.

use crate::meta::config::{Config, DatabaseType};
use crate::meta::entities::{EtcdDirChildren, EtcdEntryInfo, EtcdForwardEntry};
use crate::meta::etcd::kv::{
    all_tidy, distinct, name_set, views, with_name, without_name, Check, CheckView, Key, KeyView,
    Meaning, Operation, Reply, Request, RequestView, Shape, Value, Write, WriteView,
};
use crate::meta::permission::{Permission, DIRECTORY_BIT};
use crate::meta::store::{
    detailed, DirEntry, ErrorView, FileAttr, FileType, MetaError, Step, StepView,
};
use crate::meta::types::{CreateParams, Inode, SetAttrMask};
use vstd::prelude::*;
use vstd::string::*;

verus! {

/// The error that a failure reply is answered with.
pub open spec fn failure(reply: Reply) -> ErrorView {
    match reply {
        Reply::Malformed(text) => ErrorView::Serialization(text@),
        Reply::Refused(e) => e@,
        Reply::Failed(text) => ErrorView::Internal("Etcd error: "@ + text@),
        _ => ErrorView::Internal("Etcd error: "@),
    }
}

/// The error that a failure reply is answered with.
fn failed(reply: Reply) -> (r: MetaError)
    ensures
        r@ == failure(reply),
{
    match reply {
        Reply::Malformed(text) => MetaError::Serialization(text),
        Reply::Refused(e) => e,
        Reply::Failed(text) => MetaError::Internal(detailed("Etcd error: ", text.as_str())),
        _ => MetaError::Internal(String::from_str("Etcd error: ")),
    }
}

/// How many blocks of 512 bytes hold a size.
pub open spec fn blocks_of(size: int) -> int {
    (size + 511) / 512
}

/// How many blocks of 512 bytes hold a size.
pub fn block_count(size: u64) -> (r: u64)
    ensures
        r == blocks_of(size as int),
{
    size / 512 + if size % 512 == 0 {
        0
    } else {
        1
    }
}

/// The attributes of the root directory at a time.
pub open spec fn root_attr(now: i64) -> FileAttr {
    FileAttr {
        ino: 1,
        size: 4096,
        blocks: 8,
        kind: FileType::Dir,
        mode: 0o755,
        uid: 0,
        gid: 0,
        atime: now,
        mtime: now,
        ctime: now,
        nlink: 2,
        blksize: 4096,
        rdev: 0,
        version: 0,
    }
}

/// The size of a file; a file without one is empty.
pub open spec fn file_size(info: EtcdEntryInfo) -> u64 {
    match info.size {
        Some(size) => size as u64,
        None => 0,
    }
}

/// The attributes that the metadata of an inode stand for.
pub open spec fn attr_of(ino: i64, info: EtcdEntryInfo) -> FileAttr {
    FileAttr {
        ino,
        size: if info.is_file {
            file_size(info)
        } else {
            4096
        },
        blocks: if info.is_file {
            blocks_of(file_size(info) as int) as u64
        } else {
            8
        },
        kind: if info.is_file {
            FileType::File
        } else {
            FileType::Dir
        },
        mode: info.permission.mode,
        uid: info.permission.uid,
        gid: info.permission.gid,
        atime: info.access_time,
        mtime: info.modify_time,
        ctime: info.create_time,
        nlink: info.nlink,
        blksize: 4096,
        rdev: 0,
        version: match info.version {
            Some(v) => v as u64,
            None => 0,
        },
    }
}

/// The attributes of the root directory at a time.
fn make_root_attr(now: i64) -> (r: FileAttr)
    ensures
        r == root_attr(now),
{
    FileAttr {
        ino: 1,
        size: 4096,
        blocks: 8,
        kind: FileType::Dir,
        mode: 0o755,
        uid: 0,
        gid: 0,
        atime: now,
        mtime: now,
        ctime: now,
        nlink: 2,
        blksize: 4096,
        rdev: 0,
        version: 0,
    }
}

/// The attributes that the metadata of an inode stand for.
fn make_attr(ino: i64, info: &EtcdEntryInfo) -> (r: FileAttr)
    ensures
        r == attr_of(ino, *info),
{
    let size: u64 = match info.size {
        Some(size) => size as u64,
        None => 0,
    };
    let version: u64 = match info.version {
        Some(v) => v as u64,
        None => 0,
    };
    FileAttr {
        ino,
        size: if info.is_file {
            size
        } else {
            4096
        },
        blocks: if info.is_file {
            block_count(size)
        } else {
            8
        },
        kind: if info.is_file {
            FileType::File
        } else {
            FileType::Dir
        },
        mode: info.permission.mode,
        uid: info.permission.uid,
        gid: info.permission.gid,
        atime: info.access_time,
        mtime: info.modify_time,
        ctime: info.create_time,
        nlink: info.nlink,
        blksize: 4096,
        rdev: 0,
        version,
    }
}

/// The mode that is kept: directories carry the directory bit.
pub open spec fn kept_mode(is_file: bool, mode: u32) -> u32 {
    if is_file {
        mode
    } else {
        mode | DIRECTORY_BIT
    }
}

/// The metadata of a new inode.
pub open spec fn new_info(params: CreateParams, now: i64) -> EtcdEntryInfo {
    let is_file = params.kind == FileType::File;
    EtcdEntryInfo {
        is_file,
        size: if is_file {
            Some(0i64)
        } else {
            None
        },
        version: Some(1i32),
        permission: Permission {
            mode: kept_mode(is_file, params.mode),
            uid: params.uid,
            gid: params.gid,
        },
        access_time: now,
        modify_time: now,
        create_time: now,
        nlink: if is_file {
            1
        } else {
            2
        },
    }
}

/// The metadata of a new inode.
fn make_info(params: &CreateParams, now: i64) -> (r: EtcdEntryInfo)
    ensures
        r == new_info(*params, now),
{
    let is_file = params.kind == FileType::File;
    EtcdEntryInfo {
        is_file,
        size: if is_file {
            Some(0i64)
        } else {
            None
        },
        version: Some(1i32),
        permission: Permission {
            mode: if is_file {
                params.mode
            } else {
                params.mode | DIRECTORY_BIT
            },
            uid: params.uid,
            gid: params.gid,
        },
        access_time: now,
        modify_time: now,
        create_time: now,
        nlink: if is_file {
            1
        } else {
            2
        },
    }
}

/// How often an operation that others disturb is begun.
pub const COMMIT_TRIES: u32 = 10;

/// The error of an operation that others disturbed at every try.
pub open spec fn disturbed() -> ErrorView {
    ErrorView::Internal("Transaction failed: max retries exceeded"@)
}

/// The error of an operation that others disturbed at every try.
pub fn make_disturbed() -> (r: MetaError)
    ensures
        r@ == disturbed(),
{
    MetaError::Internal(String::from_str("Transaction failed: max retries exceeded"))
}

/// The condition that a key is as it was read: last written at the revision, or absent.
pub open spec fn as_read(k: KeyView, revision: Option<i64>) -> CheckView {
    match revision {
        Some(revision) => CheckView::Unchanged(k, revision),
        None => CheckView::Absent(k),
    }
}

/// The condition that a key is as it was read.
pub fn check_as_read(key: Key, revision: Option<i64>) -> (r: Check)
    ensures
        r@ == as_read(key@, revision),
{
    match revision {
        Some(revision) => Check::Unchanged(key, revision),
        None => Check::Absent(key),
    }
}

/// Names as they were read, with the revision of their last write.
pub type ReadNames = (EtcdDirChildren, i64);

/// The revision of names, if there were any.
pub open spec fn revision_of(names: Option<ReadNames>) -> Option<i64> {
    match names {
        Some((_, revision)) => Some(revision),
        None => None,
    }
}

/// The revision of names, if there were any.
fn read_revision(names: &Option<ReadNames>) -> (r: Option<i64>)
    ensures
        r == revision_of(*names),
{
    match names {
        Some((_, revision)) => Some(*revision),
        None => None,
    }
}

/// Whether names that were read hold each name at most once.
pub open spec fn names_tidy(names: Option<ReadNames>) -> bool {
    names matches Some((c, _)) ==> distinct(c.children@)
}

/// Creation of a file or a directory. All keys are written in one transaction, on condition that
/// the names in the parent are as they were read and that the name is free.
pub struct Create {
    pub params: CreateParams,
    pub now: i64,
    /// How often the creation was begun before.
    pub retry: u32,
    pub phase: CreatePhase,
}

/// The names in the parent directory as they were read, or why they cannot be read.
pub type Siblings = Result<ReadNames, String>;

/// How far a creation has come.
pub enum CreatePhase {
    /// The names in the parent are read.
    Parent,
    /// The name is looked up.
    Name(Siblings),
    /// A number is asked for.
    Id(Siblings),
    /// The keys are written.
    Commit(EtcdDirChildren, i64, i64),
}

impl Create {
    /// The key of the new name.
    pub open spec fn name_key(self) -> KeyView {
        KeyView::Forward(self.params.parent.0, self.params.name@)
    }

    /// The state in another phase.
    pub open spec fn at(self, phase: CreatePhase) -> Create {
        Create { phase, ..self }
    }

    /// What a creation under the number `ino` ends with.
    pub open spec fn created(self, ino: i64) -> (Inode, FileAttr) {
        (Inode(ino), attr_of(ino, new_info(self.params, self.now)))
    }

    /// The writes of a creation under the number `ino`.
    pub open spec fn writes(self, of: i64, names: Set<Seq<char>>, ino: i64) -> Seq<WriteView> {
        let is_file = self.params.kind == FileType::File;
        let three = Seq::empty().push(
            WriteView::Put(KeyView::Entry(ino), Meaning::Entry(new_info(self.params, self.now))),
        ).push(
            WriteView::Put(
                self.name_key(),
                Meaning::Forward {
                    parent: self.params.parent.0,
                    name: self.params.name@,
                    inode: ino,
                    is_file,
                },
            ),
        ).push(
            WriteView::Put(
                KeyView::Children(self.params.parent.0),
                Meaning::Children { inode: of, names: names.insert(self.params.name@) },
            ),
        );
        if is_file {
            three
        } else {
            three.push(
                WriteView::Put(
                    KeyView::Children(ino),
                    Meaning::Children { inode: ino, names: Set::empty() },
                ),
            )
        }
    }

    /// The creation is begun anew, unless it was begun often enough.
    pub open spec fn again(self) -> StepView<Create, (Inode, FileAttr)> {
        if self.retry + 1 < COMMIT_TRIES {
            StepView::Next(
                Create { retry: (self.retry + 1) as u32, phase: CreatePhase::Parent, ..self },
            )
        } else {
            StepView::Done(Err(disturbed()))
        }
    }
}

impl Operation for Create {
    type State = Create;

    type Output = (Inode, FileAttr);

    type Shown = (Inode, FileAttr);

    open spec fn state(self) -> Create {
        self
    }

    open spec fn shown(out: (Inode, FileAttr)) -> (Inode, FileAttr) {
        out
    }

    open spec fn ready(self) -> bool {
        match self.phase {
            CreatePhase::Parent => true,
            CreatePhase::Name(siblings) => siblings matches Ok(names) ==> names_tidy(Some(names)),
            CreatePhase::Id(siblings) => siblings matches Ok(names) ==> names_tidy(Some(names)),
            CreatePhase::Commit(c, _, _) => distinct(c.children@),
        }
    }

    open spec fn asks(s: Create) -> RequestView {
        let parent = s.params.parent.0;
        match s.phase {
            CreatePhase::Parent => RequestView::Get(KeyView::Children(parent), Shape::Children),
            CreatePhase::Name(_) => RequestView::Get(s.name_key(), Shape::Forward),
            CreatePhase::Id(_) => RequestView::NewId,
            CreatePhase::Commit(c, revision, ino) => RequestView::Commit {
                checks: seq![
                    CheckView::Unchanged(KeyView::Children(parent), revision),
                    CheckView::Absent(s.name_key()),
                ],
                writes: s.writes(c.inode, name_set(c.children@), ino),
            },
        }
    }

    open spec fn after(s: Create, reply: Reply) -> StepView<Create, (Inode, FileAttr)> {
        match s.phase {
            CreatePhase::Parent => match reply {
                Reply::Value(Some((Value::Children(c), revision))) => StepView::Next(
                    s.at(CreatePhase::Name(Ok((c, revision)))),
                ),
                Reply::Malformed(text) => StepView::Next(s.at(CreatePhase::Name(Err(text)))),
                Reply::Failed(_) => StepView::Done(Err(failure(reply))),
                _ => StepView::Done(Err(ErrorView::ParentNotFound(s.params.parent.0))),
            },
            CreatePhase::Name(siblings) => match reply {
                Reply::Value(None) => StepView::Next(s.at(CreatePhase::Id(siblings))),
                Reply::Failed(_) => StepView::Next(s.at(CreatePhase::Id(siblings))),
                _ => StepView::Done(
                    Err(
                        ErrorView::AlreadyExists {
                            parent: s.params.parent.0,
                            name: s.params.name@,
                        },
                    ),
                ),
            },
            CreatePhase::Id(siblings) => match reply {
                Reply::Id(ino) => match siblings {
                    Ok((c, revision)) => StepView::Next(
                        s.at(CreatePhase::Commit(c, revision, ino)),
                    ),
                    Err(text) => StepView::Done(Err(ErrorView::Serialization(text@))),
                },
                _ => StepView::Done(Err(failure(reply))),
            },
            CreatePhase::Commit(_, _, ino) => match reply {
                Reply::Committed(true) => StepView::Done(Ok(s.created(ino))),
                Reply::Committed(false) => s.again(),
                _ => StepView::Done(Err(failure(reply))),
            },
        }
    }

    fn request(&self) -> (r: Request) {
        let parent: i64 = self.params.parent.0;
        match &self.phase {
            CreatePhase::Parent => Request::Get(Key::Children(parent), Shape::Children),
            CreatePhase::Name(_) => Request::Get(
                Key::Forward { parent, name: self.params.name.clone() },
                Shape::Forward,
            ),
            CreatePhase::Id(_) => Request::NewId,
            CreatePhase::Commit(c, revision, ino) => {
                let is_file = self.params.kind == FileType::File;
                let mut checks: Vec<Check> = Vec::new();
                checks.push(Check::Unchanged(Key::Children(parent), *revision));
                checks.push(Check::Absent(Key::Forward { parent, name: self.params.name.clone() }));
                let mut writes: Vec<Write> = Vec::new();
                writes.push(
                    Write::Put(
                        Key::Entry(*ino),
                        Value::Entry(make_info(&self.params, self.now)),
                    ),
                );
                writes.push(
                    Write::Put(
                        Key::Forward { parent, name: self.params.name.clone() },
                        Value::Forward(
                            EtcdForwardEntry {
                                parent_inode: parent,
                                name: self.params.name.clone(),
                                inode: *ino,
                                is_file,
                            },
                        ),
                    ),
                );
                writes.push(
                    Write::Put(
                        Key::Children(parent),
                        Value::Children(
                            EtcdDirChildren {
                                inode: c.inode,
                                children: with_name(&c.children, &self.params.name),
                            },
                        ),
                    ),
                );
                if !is_file {
                    let children: Vec<String> = Vec::new();
                    assert(name_set(children@) =~= Set::empty());
                    writes.push(
                        Write::Put(
                            Key::Children(*ino),
                            Value::Children(EtcdDirChildren { inode: *ino, children }),
                        ),
                    );
                }
                assert(views(checks@) =~= Self::asks(self.state())->checks);
                assert(views(writes@) =~= Self::asks(self.state())->writes);
                Request::Commit { checks, writes }
            },
        }
    }

    fn resume(self, reply: Reply) -> (r: Step<Self, (Inode, FileAttr)>) {
        let Create { params, now, retry, phase } = self;
        match phase {
            CreatePhase::Parent => match reply {
                Reply::Value(Some((Value::Children(c), revision))) => Step::Next(
                    Create { params, now, retry, phase: CreatePhase::Name(Ok((c, revision))) },
                ),
                Reply::Malformed(text) => Step::Next(
                    Create { params, now, retry, phase: CreatePhase::Name(Err(text)) },
                ),
                Reply::Failed(text) => Step::Done(Err(failed(Reply::Failed(text)))),
                _ => Step::Done(Err(MetaError::ParentNotFound(params.parent.0))),
            },
            CreatePhase::Name(siblings) => match reply {
                Reply::Value(None) => Step::Next(
                    Create { params, now, retry, phase: CreatePhase::Id(siblings) },
                ),
                Reply::Failed(_) => Step::Next(
                    Create { params, now, retry, phase: CreatePhase::Id(siblings) },
                ),
                _ => Step::Done(
                    Err(MetaError::AlreadyExists { parent: params.parent.0, name: params.name }),
                ),
            },
            CreatePhase::Id(siblings) => match reply {
                Reply::Id(ino) => match siblings {
                    Ok((c, revision)) => Step::Next(
                        Create { params, now, retry, phase: CreatePhase::Commit(c, revision, ino) },
                    ),
                    Err(text) => Step::Done(Err(MetaError::Serialization(text))),
                },
                _ => Step::Done(Err(failed(reply))),
            },
            CreatePhase::Commit(_, _, ino) => match reply {
                Reply::Committed(true) => Step::Done(
                    Ok((Inode(ino), make_attr(ino, &make_info(&params, now)))),
                ),
                Reply::Committed(false) => if retry < COMMIT_TRIES - 1 {
                    Step::Next(Create { params, now, retry: retry + 1, phase: CreatePhase::Parent })
                } else {
                    Step::Done(Err(make_disturbed()))
                },
                _ => Step::Done(Err(failed(reply))),
            },
        }
    }
}

/// Attributes of an inode that is not the root.
pub struct Getattr {
    pub ino: Inode,
}

impl Operation for Getattr {
    type State = Getattr;

    type Output = FileAttr;

    type Shown = FileAttr;

    open spec fn state(self) -> Getattr {
        self
    }

    open spec fn shown(out: FileAttr) -> FileAttr {
        out
    }

    open spec fn ready(self) -> bool {
        true
    }

    open spec fn asks(s: Getattr) -> RequestView {
        RequestView::Get(KeyView::Entry(s.ino.0), Shape::Entry)
    }

    open spec fn after(s: Getattr, reply: Reply) -> StepView<Getattr, FileAttr> {
        match reply {
            Reply::Value(Some((Value::Entry(info), _))) => StepView::Done(
                Ok(attr_of(s.ino.0, info)),
            ),
            Reply::Value(_) => StepView::Done(Err(ErrorView::NotFound(s.ino.0))),
            _ => StepView::Done(Err(failure(reply))),
        }
    }

    fn request(&self) -> (r: Request) {
        Request::Get(Key::Entry(self.ino.0), Shape::Entry)
    }

    fn resume(self, reply: Reply) -> (r: Step<Self, FileAttr>) {
        match reply {
            Reply::Value(Some((Value::Entry(info), _))) => Step::Done(
                Ok(make_attr(self.ino.0, &info)),
            ),
            Reply::Value(_) => Step::Done(Err(MetaError::NotFound(self.ino.0))),
            _ => Step::Done(Err(failed(reply))),
        }
    }
}

/// Look-up of a name in a directory.
pub struct Lookup {
    pub parent: Inode,
    pub name: String,
}

impl Operation for Lookup {
    type State = Lookup;

    type Output = Inode;

    type Shown = Inode;

    open spec fn state(self) -> Lookup {
        self
    }

    open spec fn shown(out: Inode) -> Inode {
        out
    }

    open spec fn ready(self) -> bool {
        true
    }

    open spec fn asks(s: Lookup) -> RequestView {
        RequestView::Get(KeyView::Forward(s.parent.0, s.name@), Shape::Forward)
    }

    open spec fn after(s: Lookup, reply: Reply) -> StepView<Lookup, Inode> {
        match reply {
            Reply::Value(Some((Value::Forward(e), _))) => StepView::Done(Ok(Inode(e.inode))),
            Reply::Value(_) => StepView::Done(Err(ErrorView::NotFound(s.parent.0))),
            _ => StepView::Done(Err(failure(reply))),
        }
    }

    fn request(&self) -> (r: Request) {
        Request::Get(
            Key::Forward { parent: self.parent.0, name: self.name.clone() },
            Shape::Forward,
        )
    }

    fn resume(self, reply: Reply) -> (r: Step<Self, Inode>) {
        match reply {
            Reply::Value(Some((Value::Forward(e), _))) => Step::Done(Ok(Inode(e.inode))),
            Reply::Value(_) => Step::Done(Err(MetaError::NotFound(self.parent.0))),
            _ => Step::Done(Err(failed(reply))),
        }
    }
}

/// Listing of a directory.
pub struct Readdir {
    pub ino: Inode,
    pub phase: ReaddirPhase,
}

/// How far a listing has come.
pub enum ReaddirPhase {
    /// The names are read.
    Names,
    /// The names before `at` have been looked up; those that were found are in `found`.
    Entries { names: Vec<String>, at: usize, found: Vec<DirEntry> },
}

/// The state of a listing.
pub enum ReaddirState {
    Names { ino: i64 },
    Entries { ino: i64, names: Seq<String>, at: int, found: Seq<DirEntry> },
}

/// The entry of a name that stands for a forward entry.
pub open spec fn entry_of(name: String, e: EtcdForwardEntry) -> DirEntry {
    DirEntry {
        name,
        ino: e.inode,
        kind: if e.is_file {
            FileType::File
        } else {
            FileType::Dir
        },
    }
}

/// The listing goes on with the next name, or ends.
pub open spec fn list_next(
    ino: i64,
    names: Seq<String>,
    at: int,
    found: Seq<DirEntry>,
) -> StepView<ReaddirState, Seq<DirEntry>> {
    if at < names.len() {
        StepView::Next(ReaddirState::Entries { ino, names, at, found })
    } else {
        StepView::Done(Ok(found))
    }
}

impl Operation for Readdir {
    type State = ReaddirState;

    type Output = Vec<DirEntry>;

    type Shown = Seq<DirEntry>;

    open spec fn state(self) -> ReaddirState {
        match self.phase {
            ReaddirPhase::Names => ReaddirState::Names { ino: self.ino.0 },
            ReaddirPhase::Entries { names, at, found } => ReaddirState::Entries {
                ino: self.ino.0,
                names: names@,
                at: at as int,
                found: found@,
            },
        }
    }

    open spec fn shown(out: Vec<DirEntry>) -> Seq<DirEntry> {
        out@
    }

    open spec fn ready(self) -> bool {
        true
    }

    open spec fn asks(s: ReaddirState) -> RequestView {
        match s {
            ReaddirState::Names { ino } => RequestView::Get(
                KeyView::Children(ino),
                Shape::Children,
            ),
            ReaddirState::Entries { ino, names, at, found } => RequestView::Get(
                KeyView::Forward(
                    ino,
                    if 0 <= at < names.len() {
                        names[at]@
                    } else {
                        Seq::empty()
                    },
                ),
                Shape::Forward,
            ),
        }
    }

    open spec fn after(s: ReaddirState, reply: Reply) -> StepView<ReaddirState, Seq<DirEntry>> {
        match s {
            ReaddirState::Names { ino } => match reply {
                Reply::Value(Some((Value::Children(c), _))) => list_next(
                    ino,
                    c.children@,
                    0,
                    Seq::empty(),
                ),
                Reply::Value(_) => StepView::Done(Ok(Seq::empty())),
                _ => StepView::Done(Err(failure(reply))),
            },
            ReaddirState::Entries { ino, names, at, found } => match reply {
                Reply::Malformed(_) => StepView::Done(Err(failure(reply))),
                Reply::Value(Some((Value::Forward(e), _))) => if 0 <= at < names.len() {
                    list_next(ino, names, at + 1, found.push(entry_of(names[at], e)))
                } else {
                    StepView::Done(Ok(found))
                },
                _ => if 0 <= at < names.len() {
                    list_next(ino, names, at + 1, found)
                } else {
                    StepView::Done(Ok(found))
                },
            },
        }
    }

    fn request(&self) -> (r: Request) {
        match &self.phase {
            ReaddirPhase::Names => Request::Get(Key::Children(self.ino.0), Shape::Children),
            ReaddirPhase::Entries { names, at, .. } => {
                let name = if *at < names.len() {
                    names[*at].clone()
                } else {
                    String::new()
                };
                Request::Get(Key::Forward { parent: self.ino.0, name }, Shape::Forward)
            },
        }
    }

    fn resume(self, reply: Reply) -> (r: Step<Self, Vec<DirEntry>>) {
        let Readdir { ino, phase } = self;
        match phase {
            ReaddirPhase::Names => match reply {
                Reply::Value(Some((Value::Children(c), _))) => {
                    let found: Vec<DirEntry> = Vec::new();
                    if c.children.len() == 0 {
                        Step::Done(Ok(found))
                    } else {
                        Step::Next(
                            Readdir {
                                ino,
                                phase: ReaddirPhase::Entries { names: c.children, at: 0, found },
                            },
                        )
                    }
                },
                Reply::Value(_) => Step::Done(Ok(Vec::new())),
                _ => Step::Done(Err(failed(reply))),
            },
            ReaddirPhase::Entries { names, at, found } => {
                let mut found = found;
                if at >= names.len() {
                    return match reply {
                        Reply::Malformed(text) => Step::Done(Err(MetaError::Serialization(text))),
                        _ => Step::Done(Ok(found)),
                    };
                }
                match reply {
                    Reply::Malformed(text) => {
                        return Step::Done(Err(MetaError::Serialization(text)));
                    },
                    Reply::Value(Some((Value::Forward(e), _))) => {
                        found.push(
                            DirEntry {
                                name: names[at].clone(),
                                ino: e.inode,
                                kind: if e.is_file {
                                    FileType::File
                                } else {
                                    FileType::Dir
                                },
                            },
                        );
                    },
                    _ => {},
                }
                if at + 1 < names.len() {
                    Step::Next(
                        Readdir { ino, phase: ReaddirPhase::Entries { names, at: at + 1, found } },
                    )
                } else {
                    Step::Done(Ok(found))
                }
            },
        }
    }
}

/// The metadata after an update.
pub open spec fn updated(info: EtcdEntryInfo, mask: SetAttrMask) -> EtcdEntryInfo {
    EtcdEntryInfo {
        size: match mask.size {
            Some(size) => Some(size as i64),
            None => info.size,
        },
        permission: Permission {
            mode: match mask.mode {
                Some(mode) => kept_mode(info.is_file, mode),
                None => info.permission.mode,
            },
            uid: match mask.uid {
                Some(uid) => uid,
                None => info.permission.uid,
            },
            gid: match mask.gid {
                Some(gid) => gid,
                None => info.permission.gid,
            },
        },
        access_time: match mask.atime {
            Some(atime) => atime,
            None => info.access_time,
        },
        modify_time: match mask.mtime {
            Some(mtime) => mtime,
            None => info.modify_time,
        },
        ..info
    }
}

/// The metadata after an update.
fn apply_mask(info: EtcdEntryInfo, mask: &SetAttrMask) -> (r: EtcdEntryInfo)
    ensures
        r == updated(info, *mask),
{
    let mut info = info;
    if let Some(size) = mask.size {
        info.size = Some(size as i64);
    }
    if let Some(mode) = mask.mode {
        info.permission.mode = if info.is_file {
            mode
        } else {
            mode | DIRECTORY_BIT
        };
    }
    if let Some(uid) = mask.uid {
        info.permission.uid = uid;
    }
    if let Some(gid) = mask.gid {
        info.permission.gid = gid;
    }
    if let Some(atime) = mask.atime {
        info.access_time = atime;
    }
    if let Some(mtime) = mask.mtime {
        info.modify_time = mtime;
    }
    info
}

/// Update of attributes.
pub struct Setattr {
    pub ino: Inode,
    pub mask: SetAttrMask,
    pub now: i64,
    pub phase: SetattrPhase,
}

/// How far an update has come.
pub enum SetattrPhase {
    /// The metadata are read.
    Read,
    /// The updated metadata are written.
    Write(EtcdEntryInfo),
    /// The attributes are read back.
    ReadBack,
}

impl Setattr {
    /// The state in another phase.
    pub open spec fn at(self, phase: SetattrPhase) -> Setattr {
        Setattr { phase, ..self }
    }
}

impl Operation for Setattr {
    type State = Setattr;

    type Output = FileAttr;

    type Shown = FileAttr;

    open spec fn state(self) -> Setattr {
        self
    }

    open spec fn shown(out: FileAttr) -> FileAttr {
        out
    }

    open spec fn ready(self) -> bool {
        true
    }

    open spec fn asks(s: Setattr) -> RequestView {
        match s.phase {
            SetattrPhase::Write(info) => RequestView::Put(
                KeyView::Entry(s.ino.0),
                Meaning::Entry(info),
            ),
            _ => RequestView::Get(KeyView::Entry(s.ino.0), Shape::Entry),
        }
    }

    open spec fn after(s: Setattr, reply: Reply) -> StepView<Setattr, FileAttr> {
        match s.phase {
            SetattrPhase::Read => match reply {
                Reply::Value(Some((Value::Entry(info), _))) => StepView::Next(
                    s.at(SetattrPhase::Write(updated(info, s.mask))),
                ),
                Reply::Value(_) => StepView::Done(Err(ErrorView::NotFound(s.ino.0))),
                _ => StepView::Done(Err(failure(reply))),
            },
            SetattrPhase::Write(_) => match reply {
                Reply::Done => if s.ino.0 == 1 {
                    StepView::Done(Ok(root_attr(s.now)))
                } else {
                    StepView::Next(s.at(SetattrPhase::ReadBack))
                },
                _ => StepView::Done(Err(failure(reply))),
            },
            SetattrPhase::ReadBack => match reply {
                Reply::Value(Some((Value::Entry(info), _))) => StepView::Done(
                    Ok(attr_of(s.ino.0, info)),
                ),
                Reply::Value(_) => StepView::Done(Err(ErrorView::NotFound(s.ino.0))),
                _ => StepView::Done(Err(failure(reply))),
            },
        }
    }

    fn request(&self) -> (r: Request) {
        match &self.phase {
            SetattrPhase::Write(info) => Request::Put(Key::Entry(self.ino.0), Value::Entry(*info)),
            _ => Request::Get(Key::Entry(self.ino.0), Shape::Entry),
        }
    }

    fn resume(self, reply: Reply) -> (r: Step<Self, FileAttr>) {
        let Setattr { ino, mask, now, phase } = self;
        match phase {
            SetattrPhase::Read => match reply {
                Reply::Value(Some((Value::Entry(info), _))) => Step::Next(
                    Setattr { ino, mask, now, phase: SetattrPhase::Write(apply_mask(info, &mask)) },
                ),
                Reply::Value(_) => Step::Done(Err(MetaError::NotFound(ino.0))),
                _ => Step::Done(Err(failed(reply))),
            },
            SetattrPhase::Write(_) => match reply {
                Reply::Done => if ino.0 == 1 {
                    Step::Done(Ok(make_root_attr(now)))
                } else {
                    Step::Next(Setattr { ino, mask, now, phase: SetattrPhase::ReadBack })
                },
                _ => Step::Done(Err(failed(reply))),
            },
            SetattrPhase::ReadBack => match reply {
                Reply::Value(Some((Value::Entry(info), _))) => Step::Done(
                    Ok(make_attr(ino.0, &info)),
                ),
                Reply::Value(_) => Step::Done(Err(MetaError::NotFound(ino.0))),
                _ => Step::Done(Err(failed(reply))),
            },
        }
    }
}

/// Move of a name to another name. All keys are written in one transaction, on condition that the
/// old name and the names in both directories are as they were read.
pub struct Rename {
    pub old_parent: Inode,
    pub old_name: String,
    pub new_parent: Inode,
    pub new_name: String,
    /// How often the move was begun before.
    pub retry: u32,
    pub phase: RenamePhase,
}

/// How far a move has come.
pub enum RenamePhase {
    /// The old name is looked up.
    Source,
    /// The names in the new parent are read.
    Target(EtcdForwardEntry, i64),
    /// The names in the old parent are read.
    OldNames(EtcdForwardEntry, i64, Siblings),
    /// The keys are written.
    Commit { e: EtcdForwardEntry, revision: i64, to: ReadNames, from: Option<ReadNames> },
}

impl Rename {
    /// The state in another phase.
    pub open spec fn at(self, phase: RenamePhase) -> Rename {
        Rename { phase, ..self }
    }

    /// The key of the old name.
    pub open spec fn old_key(self) -> KeyView {
        KeyView::Forward(self.old_parent.0, self.old_name@)
    }

    /// The key of the new name.
    pub open spec fn new_key(self) -> KeyView {
        KeyView::Forward(self.new_parent.0, self.new_name@)
    }

    /// The move goes on with the writes.
    pub open spec fn onto(
        self,
        e: EtcdForwardEntry,
        revision: i64,
        siblings: Siblings,
        from: Option<ReadNames>,
    ) -> StepView<Rename, ()> {
        match siblings {
            Ok(to) => StepView::Next(self.at(RenamePhase::Commit { e, revision, to, from })),
            Err(text) => StepView::Done(Err(ErrorView::Serialization(text@))),
        }
    }

    /// The writes of the names in the two directories, or in the one.
    pub open spec fn name_writes(self, to: EtcdDirChildren, from: Option<ReadNames>) -> Seq<
        WriteView,
    > {
        let names = name_set(to.children@);
        if self.old_parent == self.new_parent {
            Seq::empty().push(
                WriteView::Put(
                    KeyView::Children(self.new_parent.0),
                    Meaning::Children {
                        inode: to.inode,
                        names: names.remove(self.old_name@).insert(self.new_name@),
                    },
                ),
            )
        } else {
            let put = WriteView::Put(
                KeyView::Children(self.new_parent.0),
                Meaning::Children { inode: to.inode, names: names.insert(self.new_name@) },
            );
            match from {
                Some((c, _)) => Seq::empty().push(
                    WriteView::Put(
                        KeyView::Children(self.old_parent.0),
                        Meaning::Children {
                            inode: c.inode,
                            names: name_set(c.children@).remove(self.old_name@),
                        },
                    ),
                ).push(put),
                None => Seq::empty().push(put),
            }
        }
    }

    /// The writes of the move.
    pub open spec fn writes(
        self,
        e: EtcdForwardEntry,
        to: EtcdDirChildren,
        from: Option<ReadNames>,
    ) -> Seq<WriteView> {
        let names = self.name_writes(to, from);
        let dropped = if self.old_key() == self.new_key() {
            names
        } else {
            names.push(WriteView::Delete(self.old_key()))
        };
        dropped.push(
            WriteView::Put(
                self.new_key(),
                Meaning::Forward {
                    parent: self.new_parent.0,
                    name: self.new_name@,
                    inode: e.inode,
                    is_file: e.is_file,
                },
            ),
        )
    }

    /// The writes of the names in the two directories, or in the one.
    fn put_names(&self, to: &EtcdDirChildren, from: &Option<ReadNames>) -> (r: Vec<Write>)
        requires
            distinct(to.children@),
            names_tidy(*from),
        ensures
            views(r@) == self.name_writes(*to, *from),
            all_tidy(r@),
    {
        let mut writes: Vec<Write> = Vec::new();
        if self.old_parent == self.new_parent {
            let fewer = without_name(&to.children, &self.old_name);
            let children = with_name(&fewer, &self.new_name);
            writes.push(
                Write::Put(
                    Key::Children(self.new_parent.0),
                    Value::Children(EtcdDirChildren { inode: to.inode, children }),
                ),
            );
        } else {
            if let Some((c, _)) = from {
                let children = without_name(&c.children, &self.old_name);
                writes.push(
                    Write::Put(
                        Key::Children(self.old_parent.0),
                        Value::Children(EtcdDirChildren { inode: c.inode, children }),
                    ),
                );
            }
            let children = with_name(&to.children, &self.new_name);
            writes.push(
                Write::Put(
                    Key::Children(self.new_parent.0),
                    Value::Children(EtcdDirChildren { inode: to.inode, children }),
                ),
            );
        }
        assert(views(writes@) =~= self.name_writes(*to, *from));
        writes
    }

    /// The move is begun anew, unless it was begun often enough.
    pub open spec fn again(self) -> StepView<Rename, ()> {
        if self.retry + 1 < COMMIT_TRIES {
            StepView::Next(
                Rename { retry: (self.retry + 1) as u32, phase: RenamePhase::Source, ..self },
            )
        } else {
            StepView::Done(Err(disturbed()))
        }
    }
}

impl Operation for Rename {
    type State = Rename;

    type Output = ();

    type Shown = ();

    open spec fn state(self) -> Rename {
        self
    }

    open spec fn shown(out: ()) -> () {
        out
    }

    open spec fn ready(self) -> bool {
        match self.phase {
            RenamePhase::OldNames(_, _, siblings) => siblings matches Ok(names) ==> names_tidy(
                Some(names),
            ),
            RenamePhase::Commit { to, from, .. } => names_tidy(Some(to)) && names_tidy(from),
            _ => true,
        }
    }

    open spec fn asks(s: Rename) -> RequestView {
        match s.phase {
            RenamePhase::Source => RequestView::Get(s.old_key(), Shape::Forward),
            RenamePhase::Target(_, _) => RequestView::Get(
                KeyView::Children(s.new_parent.0),
                Shape::Children,
            ),
            RenamePhase::OldNames(_, _, _) => RequestView::Get(
                KeyView::Children(s.old_parent.0),
                Shape::Children,
            ),
            RenamePhase::Commit { e, revision, to, from } => RequestView::Commit {
                checks: seq![
                    CheckView::Unchanged(s.old_key(), revision),
                    CheckView::Unchanged(KeyView::Children(s.new_parent.0), to.1),
                    as_read(KeyView::Children(s.old_parent.0), revision_of(from)),
                ],
                writes: s.writes(e, to.0, from),
            },
        }
    }

    open spec fn after(s: Rename, reply: Reply) -> StepView<Rename, ()> {
        match s.phase {
            RenamePhase::Source => match reply {
                Reply::Value(Some((Value::Forward(e), revision))) => StepView::Next(
                    s.at(RenamePhase::Target(e, revision)),
                ),
                Reply::Value(_) => StepView::Done(Err(ErrorView::NotFound(s.old_parent.0))),
                _ => StepView::Done(Err(failure(reply))),
            },
            RenamePhase::Target(e, revision) => match reply {
                Reply::Value(Some((Value::Children(c), at))) => StepView::Next(
                    s.at(RenamePhase::OldNames(e, revision, Ok((c, at)))),
                ),
                Reply::Malformed(text) => StepView::Next(
                    s.at(RenamePhase::OldNames(e, revision, Err(text))),
                ),
                Reply::Value(_) => StepView::Done(Err(ErrorView::ParentNotFound(s.new_parent.0))),
                _ => StepView::Done(Err(failure(reply))),
            },
            RenamePhase::OldNames(e, revision, siblings) => match reply {
                Reply::Value(Some((Value::Children(c), at))) => s.onto(
                    e,
                    revision,
                    siblings,
                    Some((c, at)),
                ),
                Reply::Value(_) => s.onto(e, revision, siblings, None),
                _ => StepView::Done(Err(failure(reply))),
            },
            RenamePhase::Commit { .. } => match reply {
                Reply::Committed(true) => StepView::Done(Ok(())),
                Reply::Committed(false) => s.again(),
                _ => StepView::Done(Err(failure(reply))),
            },
        }
    }

    fn request(&self) -> (r: Request) {
        match &self.phase {
            RenamePhase::Source => Request::Get(
                Key::Forward { parent: self.old_parent.0, name: self.old_name.clone() },
                Shape::Forward,
            ),
            RenamePhase::Target(_, _) => Request::Get(
                Key::Children(self.new_parent.0),
                Shape::Children,
            ),
            RenamePhase::OldNames(_, _, _) => Request::Get(
                Key::Children(self.old_parent.0),
                Shape::Children,
            ),
            RenamePhase::Commit { e, revision, to, from } => {
                let mut checks: Vec<Check> = Vec::new();
                checks.push(
                    Check::Unchanged(
                        Key::Forward { parent: self.old_parent.0, name: self.old_name.clone() },
                        *revision,
                    ),
                );
                checks.push(Check::Unchanged(Key::Children(self.new_parent.0), to.1));
                checks.push(check_as_read(Key::Children(self.old_parent.0), read_revision(from)));
                let mut writes = self.put_names(&to.0, from);
                let ghost names = writes@;
                let same = self.old_parent == self.new_parent && self.old_name == self.new_name;
                if !same {
                    writes.push(
                        Write::Delete(
                            Key::Forward { parent: self.old_parent.0, name: self.old_name.clone() },
                        ),
                    );
                }
                writes.push(
                    Write::Put(
                        Key::Forward { parent: self.new_parent.0, name: self.new_name.clone() },
                        Value::Forward(
                            EtcdForwardEntry {
                                parent_inode: self.new_parent.0,
                                name: self.new_name.clone(),
                                inode: e.inode,
                                is_file: e.is_file,
                            },
                        ),
                    ),
                );
                proof {
                    assert forall|i: int| 0 <= i < names.len() implies (#[trigger] writes@[i])
                        == names[i] && views(names)[i] == names[i]@ by {}
                    assert(views(checks@) =~= Self::asks(self.state())->checks);
                    assert(views(writes@) =~= Self::asks(self.state())->writes);
                }
                Request::Commit { checks, writes }
            },
        }
    }

    fn resume(self, reply: Reply) -> (r: Step<Self, ()>) {
        let Rename { old_parent, old_name, new_parent, new_name, retry, phase } = self;
        let mut tries: u32 = retry;
        let next = match phase {
            RenamePhase::Source => match reply {
                Reply::Value(Some((Value::Forward(e), revision))) => RenamePhase::Target(
                    e,
                    revision,
                ),
                Reply::Value(_) => return Step::Done(Err(MetaError::NotFound(old_parent.0))),
                _ => return Step::Done(Err(failed(reply))),
            },
            RenamePhase::Target(e, revision) => match reply {
                Reply::Value(Some((Value::Children(c), at))) => RenamePhase::OldNames(
                    e,
                    revision,
                    Ok((c, at)),
                ),
                Reply::Malformed(text) => RenamePhase::OldNames(e, revision, Err(text)),
                Reply::Value(_) => return Step::Done(Err(MetaError::ParentNotFound(new_parent.0))),
                _ => return Step::Done(Err(failed(reply))),
            },
            RenamePhase::OldNames(e, revision, siblings) => {
                let from = match reply {
                    Reply::Value(Some((Value::Children(c), at))) => Some((c, at)),
                    Reply::Value(_) => None,
                    _ => return Step::Done(Err(failed(reply))),
                };
                match siblings {
                    Ok(to) => RenamePhase::Commit { e, revision, to, from },
                    Err(text) => return Step::Done(Err(MetaError::Serialization(text))),
                }
            },
            RenamePhase::Commit { .. } => match reply {
                Reply::Committed(true) => return Step::Done(Ok(())),
                Reply::Committed(false) => {
                    if retry >= COMMIT_TRIES - 1 {
                        return Step::Done(Err(make_disturbed()));
                    }
                    tries = retry + 1;
                    RenamePhase::Source
                },
                _ => return Step::Done(Err(failed(reply))),
            },
        };
        Step::Next(
            Rename { old_parent, old_name, new_parent, new_name, retry: tries, phase: next },
        )
    }
}

/// The write of the names in a directory without one, if there are any.
pub open spec fn drop_writes(parent: i64, name: Seq<char>, names: Option<ReadNames>) -> Seq<
    WriteView,
> {
    match names {
        Some((c, _)) => Seq::empty().push(
            WriteView::Put(
                KeyView::Children(parent),
                Meaning::Children { inode: c.inode, names: name_set(c.children@).remove(name) },
            ),
        ),
        None => Seq::empty(),
    }
}

/// The write of the names in a directory without one, if there are any.
fn drop_name(parent: i64, name: &String, names: &Option<ReadNames>) -> (r: Vec<Write>)
    requires
        names_tidy(*names),
    ensures
        views(r@) == drop_writes(parent, name@, *names),
        all_tidy(r@),
{
    let mut writes: Vec<Write> = Vec::new();
    if let Some((c, _)) = names {
        writes.push(
            Write::Put(
                Key::Children(parent),
                Value::Children(
                    EtcdDirChildren { inode: c.inode, children: without_name(&c.children, name) },
                ),
            ),
        );
    }
    assert(views(writes@) =~= drop_writes(parent, name@, *names));
    writes
}

/// Removal of a file. All keys are written in one transaction, on condition that the name and the
/// names in the parent are as they were read.
pub struct Unlink {
    pub parent: Inode,
    pub name: String,
    /// How often the removal was begun before.
    pub retry: u32,
    pub phase: UnlinkPhase,
}

/// How far a removal of a file has come.
pub enum UnlinkPhase {
    /// The name is looked up.
    Source,
    /// The names in the parent are read.
    Names(i64, i64),
    /// The keys are written.
    Commit { ino: i64, revision: i64, names: Option<ReadNames> },
}

impl Unlink {
    /// The state in another phase.
    pub open spec fn at(self, phase: UnlinkPhase) -> Unlink {
        Unlink { phase, ..self }
    }

    /// The key of the name.
    pub open spec fn key(self) -> KeyView {
        KeyView::Forward(self.parent.0, self.name@)
    }

    /// The writes of the removal.
    pub open spec fn writes(self, ino: i64, names: Option<ReadNames>) -> Seq<WriteView> {
        drop_writes(self.parent.0, self.name@, names).push(WriteView::Delete(self.key())).push(
            WriteView::Delete(KeyView::Entry(ino)),
        )
    }

    /// The removal is begun anew, unless it was begun often enough.
    pub open spec fn again(self) -> StepView<Unlink, ()> {
        if self.retry + 1 < COMMIT_TRIES {
            StepView::Next(
                Unlink { retry: (self.retry + 1) as u32, phase: UnlinkPhase::Source, ..self },
            )
        } else {
            StepView::Done(Err(disturbed()))
        }
    }
}

impl Operation for Unlink {
    type State = Unlink;

    type Output = ();

    type Shown = ();

    open spec fn state(self) -> Unlink {
        self
    }

    open spec fn shown(out: ()) -> () {
        out
    }

    open spec fn ready(self) -> bool {
        self.phase matches UnlinkPhase::Commit { names, .. } ==> names_tidy(names)
    }

    open spec fn asks(s: Unlink) -> RequestView {
        match s.phase {
            UnlinkPhase::Source => RequestView::Get(s.key(), Shape::Forward),
            UnlinkPhase::Names(_, _) => RequestView::Get(
                KeyView::Children(s.parent.0),
                Shape::Children,
            ),
            UnlinkPhase::Commit { ino, revision, names } => RequestView::Commit {
                checks: seq![
                    CheckView::Unchanged(s.key(), revision),
                    as_read(KeyView::Children(s.parent.0), revision_of(names)),
                ],
                writes: s.writes(ino, names),
            },
        }
    }

    open spec fn after(s: Unlink, reply: Reply) -> StepView<Unlink, ()> {
        match s.phase {
            UnlinkPhase::Source => match reply {
                Reply::Value(Some((Value::Forward(e), revision))) => if e.is_file {
                    StepView::Next(s.at(UnlinkPhase::Names(e.inode, revision)))
                } else {
                    StepView::Done(
                        Err(ErrorView::Internal("Cannot unlink directory, use rmdir"@)),
                    )
                },
                Reply::Value(_) => StepView::Done(Err(ErrorView::NotFound(s.parent.0))),
                _ => StepView::Done(Err(failure(reply))),
            },
            UnlinkPhase::Names(ino, revision) => match reply {
                Reply::Value(Some((Value::Children(c), at))) => StepView::Next(
                    s.at(UnlinkPhase::Commit { ino, revision, names: Some((c, at)) }),
                ),
                Reply::Value(_) => StepView::Next(
                    s.at(UnlinkPhase::Commit { ino, revision, names: None }),
                ),
                _ => StepView::Done(Err(failure(reply))),
            },
            UnlinkPhase::Commit { .. } => match reply {
                Reply::Committed(true) => StepView::Done(Ok(())),
                Reply::Committed(false) => s.again(),
                _ => StepView::Done(Err(failure(reply))),
            },
        }
    }

    fn request(&self) -> (r: Request) {
        match &self.phase {
            UnlinkPhase::Source => Request::Get(
                Key::Forward { parent: self.parent.0, name: self.name.clone() },
                Shape::Forward,
            ),
            UnlinkPhase::Names(_, _) => Request::Get(Key::Children(self.parent.0), Shape::Children),
            UnlinkPhase::Commit { ino, revision, names } => {
                let mut checks: Vec<Check> = Vec::new();
                checks.push(
                    Check::Unchanged(
                        Key::Forward { parent: self.parent.0, name: self.name.clone() },
                        *revision,
                    ),
                );
                checks.push(check_as_read(Key::Children(self.parent.0), read_revision(names)));
                let mut writes = drop_name(self.parent.0, &self.name, names);
                let ghost before = writes@;
                writes.push(
                    Write::Delete(
                        Key::Forward { parent: self.parent.0, name: self.name.clone() },
                    ),
                );
                writes.push(Write::Delete(Key::Entry(*ino)));
                proof {
                    assert forall|i: int| 0 <= i < before.len() implies (#[trigger] writes@[i])
                        == before[i] && views(before)[i] == before[i]@ by {}
                    assert(views(checks@) =~= Self::asks(self.state())->checks);
                    assert(views(writes@) =~= Self::asks(self.state())->writes);
                }
                Request::Commit { checks, writes }
            },
        }
    }

    fn resume(self, reply: Reply) -> (r: Step<Self, ()>) {
        let Unlink { parent, name, retry, phase } = self;
        let mut tries: u32 = retry;
        let next = match phase {
            UnlinkPhase::Source => match reply {
                Reply::Value(Some((Value::Forward(e), revision))) => {
                    if !e.is_file {
                        return Step::Done(
                            Err(
                                MetaError::Internal(
                                    String::from_str("Cannot unlink directory, use rmdir"),
                                ),
                            ),
                        );
                    }
                    UnlinkPhase::Names(e.inode, revision)
                },
                Reply::Value(_) => return Step::Done(Err(MetaError::NotFound(parent.0))),
                _ => return Step::Done(Err(failed(reply))),
            },
            UnlinkPhase::Names(ino, revision) => match reply {
                Reply::Value(Some((Value::Children(c), at))) => UnlinkPhase::Commit {
                    ino,
                    revision,
                    names: Some((c, at)),
                },
                Reply::Value(_) => UnlinkPhase::Commit { ino, revision, names: None },
                _ => return Step::Done(Err(failed(reply))),
            },
            UnlinkPhase::Commit { .. } => match reply {
                Reply::Committed(true) => return Step::Done(Ok(())),
                Reply::Committed(false) => {
                    if retry >= COMMIT_TRIES - 1 {
                        return Step::Done(Err(make_disturbed()));
                    }
                    tries = retry + 1;
                    UnlinkPhase::Source
                },
                _ => return Step::Done(Err(failed(reply))),
            },
        };
        Step::Next(Unlink { parent, name, retry: tries, phase: next })
    }
}

/// Removal of an empty directory. All keys are written in one transaction, on condition that the
/// name, the names in the directory and the names in the parent are as they were read.
pub struct Rmdir {
    pub parent: Inode,
    pub name: String,
    /// How often the removal was begun before.
    pub retry: u32,
    pub phase: RmdirPhase,
}

/// How far a removal of a directory has come.
pub enum RmdirPhase {
    /// The name is looked up.
    Source,
    /// The names in the directory are read.
    OwnNames(i64, i64),
    /// The names in the parent are read.
    Names { ino: i64, revision: i64, own: Option<i64> },
    /// The keys are written.
    Commit { ino: i64, revision: i64, own: Option<i64>, names: Option<ReadNames> },
}

impl Rmdir {
    /// The state in another phase.
    pub open spec fn at(self, phase: RmdirPhase) -> Rmdir {
        Rmdir { phase, ..self }
    }

    /// The key of the name.
    pub open spec fn key(self) -> KeyView {
        KeyView::Forward(self.parent.0, self.name@)
    }

    /// The writes of the removal.
    pub open spec fn writes(self, ino: i64, names: Option<ReadNames>) -> Seq<WriteView> {
        drop_writes(self.parent.0, self.name@, names).push(
            WriteView::Delete(KeyView::Children(ino)),
        ).push(WriteView::Delete(self.key())).push(WriteView::Delete(KeyView::Entry(ino)))
    }

    /// The removal is begun anew, unless it was begun often enough.
    pub open spec fn again(self) -> StepView<Rmdir, ()> {
        if self.retry + 1 < COMMIT_TRIES {
            StepView::Next(
                Rmdir { retry: (self.retry + 1) as u32, phase: RmdirPhase::Source, ..self },
            )
        } else {
            StepView::Done(Err(disturbed()))
        }
    }
}

impl Operation for Rmdir {
    type State = Rmdir;

    type Output = ();

    type Shown = ();

    open spec fn state(self) -> Rmdir {
        self
    }

    open spec fn shown(out: ()) -> () {
        out
    }

    open spec fn ready(self) -> bool {
        self.phase matches RmdirPhase::Commit { names, .. } ==> names_tidy(names)
    }

    open spec fn asks(s: Rmdir) -> RequestView {
        match s.phase {
            RmdirPhase::Source => RequestView::Get(s.key(), Shape::Forward),
            RmdirPhase::OwnNames(ino, _) => RequestView::Get(
                KeyView::Children(ino),
                Shape::Children,
            ),
            RmdirPhase::Names { .. } => RequestView::Get(
                KeyView::Children(s.parent.0),
                Shape::Children,
            ),
            RmdirPhase::Commit { ino, revision, own, names } => RequestView::Commit {
                checks: seq![
                    CheckView::Unchanged(s.key(), revision),
                    as_read(KeyView::Children(ino), own),
                    as_read(KeyView::Children(s.parent.0), revision_of(names)),
                ],
                writes: s.writes(ino, names),
            },
        }
    }

    open spec fn after(s: Rmdir, reply: Reply) -> StepView<Rmdir, ()> {
        match s.phase {
            RmdirPhase::Source => match reply {
                Reply::Value(Some((Value::Forward(e), revision))) => if e.is_file {
                    StepView::Done(Err(ErrorView::NotDirectory(e.inode)))
                } else {
                    StepView::Next(s.at(RmdirPhase::OwnNames(e.inode, revision)))
                },
                Reply::Value(_) => StepView::Done(Err(ErrorView::NotFound(s.parent.0))),
                _ => StepView::Done(Err(failure(reply))),
            },
            RmdirPhase::OwnNames(ino, revision) => match reply {
                Reply::Value(Some((Value::Children(c), at))) => if c.children@.len() > 0 {
                    StepView::Done(Err(ErrorView::DirectoryNotEmpty(ino)))
                } else {
                    StepView::Next(s.at(RmdirPhase::Names { ino, revision, own: Some(at) }))
                },
                Reply::Value(_) => StepView::Next(
                    s.at(RmdirPhase::Names { ino, revision, own: None }),
                ),
                _ => StepView::Done(Err(failure(reply))),
            },
            RmdirPhase::Names { ino, revision, own } => match reply {
                Reply::Value(Some((Value::Children(c), at))) => StepView::Next(
                    s.at(RmdirPhase::Commit { ino, revision, own, names: Some((c, at)) }),
                ),
                Reply::Value(_) => StepView::Next(
                    s.at(RmdirPhase::Commit { ino, revision, own, names: None }),
                ),
                _ => StepView::Done(Err(failure(reply))),
            },
            RmdirPhase::Commit { .. } => match reply {
                Reply::Committed(true) => StepView::Done(Ok(())),
                Reply::Committed(false) => s.again(),
                _ => StepView::Done(Err(failure(reply))),
            },
        }
    }

    fn request(&self) -> (r: Request) {
        match &self.phase {
            RmdirPhase::Source => Request::Get(
                Key::Forward { parent: self.parent.0, name: self.name.clone() },
                Shape::Forward,
            ),
            RmdirPhase::OwnNames(ino, _) => Request::Get(Key::Children(*ino), Shape::Children),
            RmdirPhase::Names { .. } => Request::Get(Key::Children(self.parent.0), Shape::Children),
            RmdirPhase::Commit { ino, revision, own, names } => {
                let mut checks: Vec<Check> = Vec::new();
                checks.push(
                    Check::Unchanged(
                        Key::Forward { parent: self.parent.0, name: self.name.clone() },
                        *revision,
                    ),
                );
                checks.push(check_as_read(Key::Children(*ino), *own));
                checks.push(check_as_read(Key::Children(self.parent.0), read_revision(names)));
                let mut writes = drop_name(self.parent.0, &self.name, names);
                let ghost before = writes@;
                writes.push(Write::Delete(Key::Children(*ino)));
                writes.push(
                    Write::Delete(
                        Key::Forward { parent: self.parent.0, name: self.name.clone() },
                    ),
                );
                writes.push(Write::Delete(Key::Entry(*ino)));
                proof {
                    assert forall|i: int| 0 <= i < before.len() implies (#[trigger] writes@[i])
                        == before[i] && views(before)[i] == before[i]@ by {}
                    assert(views(checks@) =~= Self::asks(self.state())->checks);
                    assert(views(writes@) =~= Self::asks(self.state())->writes);
                }
                Request::Commit { checks, writes }
            },
        }
    }

    fn resume(self, reply: Reply) -> (r: Step<Self, ()>) {
        let Rmdir { parent, name, retry, phase } = self;
        let mut tries: u32 = retry;
        let next = match phase {
            RmdirPhase::Source => match reply {
                Reply::Value(Some((Value::Forward(e), revision))) => {
                    if e.is_file {
                        return Step::Done(Err(MetaError::NotDirectory(e.inode)));
                    }
                    RmdirPhase::OwnNames(e.inode, revision)
                },
                Reply::Value(_) => return Step::Done(Err(MetaError::NotFound(parent.0))),
                _ => return Step::Done(Err(failed(reply))),
            },
            RmdirPhase::OwnNames(ino, revision) => match reply {
                Reply::Value(Some((Value::Children(c), at))) => {
                    if c.children.len() > 0 {
                        return Step::Done(Err(MetaError::DirectoryNotEmpty(ino)));
                    }
                    RmdirPhase::Names { ino, revision, own: Some(at) }
                },
                Reply::Value(_) => RmdirPhase::Names { ino, revision, own: None },
                _ => return Step::Done(Err(failed(reply))),
            },
            RmdirPhase::Names { ino, revision, own } => match reply {
                Reply::Value(Some((Value::Children(c), at))) => RmdirPhase::Commit {
                    ino,
                    revision,
                    own,
                    names: Some((c, at)),
                },
                Reply::Value(_) => RmdirPhase::Commit { ino, revision, own, names: None },
                _ => return Step::Done(Err(failed(reply))),
            },
            RmdirPhase::Commit { .. } => match reply {
                Reply::Committed(true) => return Step::Done(Ok(())),
                Reply::Committed(false) => {
                    if retry >= COMMIT_TRIES - 1 {
                        return Step::Done(Err(make_disturbed()));
                    }
                    tries = retry + 1;
                    RmdirPhase::Source
                },
                _ => return Step::Done(Err(failed(reply))),
            },
        };
        Step::Next(Rmdir { parent, name, retry: tries, phase: next })
    }
}

/// Preparation of the root directory.
pub enum InitRoot {
    /// The names in the root are read.
    Read,
    /// The empty list of names is written, if there is none.
    Write,
}

impl Operation for InitRoot {
    type State = InitRoot;

    type Output = ();

    type Shown = ();

    open spec fn state(self) -> InitRoot {
        self
    }

    open spec fn shown(out: ()) -> () {
        out
    }

    open spec fn ready(self) -> bool {
        true
    }

    open spec fn asks(s: InitRoot) -> RequestView {
        match s {
            InitRoot::Read => RequestView::Get(KeyView::Children(1), Shape::Children),
            InitRoot::Write => RequestView::Commit {
                checks: seq![CheckView::Absent(KeyView::Children(1))],
                writes: seq![
                    WriteView::Put(
                        KeyView::Children(1),
                        Meaning::Children { inode: 1, names: Set::empty() },
                    ),
                ],
            },
        }
    }

    open spec fn after(s: InitRoot, reply: Reply) -> StepView<InitRoot, ()> {
        match s {
            InitRoot::Read => match reply {
                Reply::Value(None) => StepView::Next(InitRoot::Write),
                Reply::Failed(_) => StepView::Next(InitRoot::Write),
                _ => StepView::Done(Ok(())),
            },
            InitRoot::Write => match reply {
                Reply::Committed(_) => StepView::Done(Ok(())),
                Reply::Failed(text) => StepView::Done(
                    Err(
                        ErrorView::Config(
                            "Failed to initialize root directory in Etcd: "@ + text@,
                        ),
                    ),
                ),
                _ => StepView::Done(Err(failure(reply))),
            },
        }
    }

    fn request(&self) -> (r: Request) {
        match self {
            InitRoot::Read => Request::Get(Key::Children(1), Shape::Children),
            InitRoot::Write => {
                let children: Vec<String> = Vec::new();
                assert(name_set(children@) =~= Set::empty());
                let mut checks: Vec<Check> = Vec::new();
                checks.push(Check::Absent(Key::Children(1)));
                let mut writes: Vec<Write> = Vec::new();
                writes.push(
                    Write::Put(
                        Key::Children(1),
                        Value::Children(EtcdDirChildren { inode: 1, children }),
                    ),
                );
                assert(views(checks@) =~= Self::asks(self.state())->checks);
                assert(views(writes@) =~= Self::asks(self.state())->writes);
                Request::Commit { checks, writes }
            },
        }
    }

    fn resume(self, reply: Reply) -> (r: Step<Self, ()>) {
        match self {
            InitRoot::Read => match reply {
                Reply::Value(None) => Step::Next(InitRoot::Write),
                Reply::Failed(_) => Step::Next(InitRoot::Write),
                _ => Step::Done(Ok(())),
            },
            InitRoot::Write => match reply {
                Reply::Committed(_) => Step::Done(Ok(())),
                Reply::Failed(text) => Step::Done(
                    Err(
                        MetaError::Config(
                            detailed(
                                "Failed to initialize root directory in Etcd: ",
                                text.as_str(),
                            ),
                        ),
                    ),
                ),
                _ => Step::Done(Err(failed(reply))),
            },
        }
    }
}

/// The metadata store over the key-value service. Each method gives the
/// operation in its first state, or its end where no request is needed.
pub struct EtcdMetaStore;

impl EtcdMetaStore {
    /// The addresses of the key-value service that a configuration names.
    pub fn create_client(config: &Config) -> (r: Result<&Vec<String>, MetaError>)
        ensures
            match config.spec_database() {
                None => r matches Err(e) && e@ == ErrorView::Config("Database backend not configured"@),
                Some(db) => match db.db_config {
                    DatabaseType::Etcd { urls } => r == Ok::<&Vec<String>, MetaError>(&urls),
                    _ => r matches Err(e) && e@ == ErrorView::Config(
                        "SQL database backend not supported by EtcdMetaStore. Use DatabaseMetaStore instead."@,
                    ),
                },
            },
    {
        match config.database() {
            None => Err(MetaError::Config(String::from_str("Database backend not configured"))),
            Some(db) => match &db.db_config {
                DatabaseType::Etcd { urls } => Ok(urls),
                _ => Err(
                    MetaError::Config(
                        String::from_str(
                            "SQL database backend not supported by EtcdMetaStore. Use DatabaseMetaStore instead.",
                        ),
                    ),
                ),
            },
        }
    }

    /// The root directory.
    pub fn root_ino() -> (r: Inode)
        ensures
            r == Inode(1),
    {
        Inode(1)
    }

    /// Prepares the root directory.
    pub fn init_root_directory() -> (r: InitRoot)
        ensures
            r == InitRoot::Read,
    {
        InitRoot::Read
    }

    /// Attributes of an inode. The root has fixed attributes, with the time that is given.
    pub fn getattr(ino: Inode, now: i64) -> (r: Step<Getattr, FileAttr>)
        ensures
            r == (if ino.0 == 1 {
                Step::<Getattr, FileAttr>::Done(Ok(root_attr(now)))
            } else {
                Step::<Getattr, FileAttr>::Next(Getattr { ino })
            }),
    {
        if ino.0 == 1 {
            Step::Done(Ok(make_root_attr(now)))
        } else {
            Step::Next(Getattr { ino })
        }
    }

    /// What a name in a directory stands for.
    pub fn lookup(parent: Inode, name: String) -> (r: Lookup)
        ensures
            r == (Lookup { parent, name }),
    {
        Lookup { parent, name }
    }

    /// The entries of a directory.
    pub fn readdir(ino: Inode) -> (r: Readdir)
        ensures
            r == (Readdir { ino, phase: ReaddirPhase::Names }),
    {
        Readdir { ino, phase: ReaddirPhase::Names }
    }

    /// Creates a file or a directory.
    pub fn create(params: CreateParams, now: i64) -> (r: Create)
        ensures
            r == (Create { params, now, retry: 0, phase: CreatePhase::Parent }),
    {
        Create { params, now, retry: 0, phase: CreatePhase::Parent }
    }

    /// Sets the attributes of the mask; an empty mask reads them only.
    pub fn setattr(ino: Inode, mask: SetAttrMask, now: i64) -> (r: Step<Setattr, FileAttr>)
        ensures
            r == (if mask != SetAttrMask::nothing() {
                Step::<Setattr, FileAttr>::Next(
                    Setattr { ino, mask, now, phase: SetattrPhase::Read },
                )
            } else if ino.0 == 1 {
                Step::<Setattr, FileAttr>::Done(Ok(root_attr(now)))
            } else {
                Step::<Setattr, FileAttr>::Next(
                    Setattr { ino, mask, now, phase: SetattrPhase::ReadBack },
                )
            }),
    {
        if !mask.is_empty() {
            Step::Next(Setattr { ino, mask, now, phase: SetattrPhase::Read })
        } else if ino.0 == 1 {
            Step::Done(Ok(make_root_attr(now)))
        } else {
            Step::Next(Setattr { ino, mask, now, phase: SetattrPhase::ReadBack })
        }
    }

    /// Moves a name.
    pub fn rename(old_parent: Inode, old_name: String, new_parent: Inode, new_name: String) -> (r:
        Rename)
        ensures
            r == (Rename {
                old_parent,
                old_name,
                new_parent,
                new_name,
                retry: 0,
                phase: RenamePhase::Source,
            }),
    {
        Rename {
            old_parent,
            old_name,
            new_parent,
            new_name,
            retry: 0,
            phase: RenamePhase::Source,
        }
    }

    /// Removes a file.
    pub fn unlink(parent: Inode, name: String) -> (r: Unlink)
        ensures
            r == (Unlink { parent, name, retry: 0, phase: UnlinkPhase::Source }),
    {
        Unlink { parent, name, retry: 0, phase: UnlinkPhase::Source }
    }

    /// Removes an empty directory.
    pub fn rmdir(parent: Inode, name: String) -> (r: Rmdir)
        ensures
            r == (Rmdir { parent, name, retry: 0, phase: RmdirPhase::Source }),
    {
        Rmdir { parent, name, retry: 0, phase: RmdirPhase::Source }
    }
}

} // verus!
