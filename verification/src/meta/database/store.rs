//! File system operations on the tables.

use crate::meta::database::db::{DbOperation, DbReply, DbRequest, DbRequestView, EntryView};
use crate::meta::entities::{AccessMetaModel, ContentMetaModel, EntryType, FileMetaModel};
use crate::meta::etcd::atomic_reads::{attr_of_dir, attr_of_file, dir_attr, file_attr};
use crate::meta::permission::{Permission, DIRECTORY_BIT};
use crate::meta::store::{ErrorView, FileAttr, FileType, MetaError, Step, StepView};
use crate::meta::types::{CreateParams, Inode, SetAttrMask};
use vstd::prelude::*;
use vstd::string::*;

verus! {

/// The error that a failure is answered with.
pub open spec fn db_failure(reply: DbReply) -> ErrorView {
    match reply {
        DbReply::Failed(text) => ErrorView::Database(text@),
        DbReply::Refused(e) => e@,
        _ => ErrorView::Database(Seq::empty()),
    }
}

/// The error that a failure is answered with.
pub fn db_failed(reply: DbReply) -> (r: MetaError)
    ensures
        r@ == db_failure(reply),
{
    match reply {
        DbReply::Failed(text) => MetaError::Database(text),
        DbReply::Refused(e) => e,
        _ => MetaError::Database(String::new()),
    }
}

/// Attributes of an inode: as a file first, then as a directory.
pub struct Getattr {
    pub ino: i64,
    pub as_dir: bool,
}

impl DbOperation for Getattr {
    type State = Getattr;

    type Output = FileAttr;

    type Shown = FileAttr;

    open spec fn state(self) -> Getattr {
        self
    }

    open spec fn shown(out: FileAttr) -> FileAttr {
        out
    }

    open spec fn asks(s: Getattr) -> DbRequestView {
        if s.as_dir {
            DbRequestView::FindDir(s.ino)
        } else {
            DbRequestView::FindFile(s.ino)
        }
    }

    open spec fn after(s: Getattr, reply: DbReply) -> StepView<Getattr, FileAttr> {
        match reply {
            DbReply::File(Some(m)) => StepView::Done(
                Ok(file_attr(FileMetaModel { inode: s.ino, ..m })),
            ),
            DbReply::File(None) => StepView::Next(Getattr { ino: s.ino, as_dir: true }),
            DbReply::Dir(Some(m)) => StepView::Done(
                Ok(dir_attr(AccessMetaModel { inode: s.ino, ..m })),
            ),
            DbReply::Dir(None) => StepView::Done(Err(ErrorView::NotFound(s.ino))),
            _ => StepView::Done(Err(db_failure(reply))),
        }
    }

    fn request(&self) -> (r: DbRequest) {
        if self.as_dir {
            DbRequest::FindDir(self.ino)
        } else {
            DbRequest::FindFile(self.ino)
        }
    }

    fn resume(self, reply: DbReply) -> (r: Step<Self, FileAttr>) {
        match reply {
            DbReply::File(Some(m)) => {
                let m = FileMetaModel { inode: self.ino, ..m };
                Step::Done(Ok(attr_of_file(&m)))
            },
            DbReply::File(None) => Step::Next(Getattr { ino: self.ino, as_dir: true }),
            DbReply::Dir(Some(m)) => {
                let m = AccessMetaModel { inode: self.ino, ..m };
                Step::Done(Ok(attr_of_dir(&m)))
            },
            DbReply::Dir(None) => Step::Done(Err(MetaError::NotFound(self.ino))),
            _ => Step::Done(Err(db_failed(reply))),
        }
    }
}

/// Creation of a file or a directory.
pub struct Create {
    pub params: CreateParams,
    pub now: i64,
    pub phase: CreatePhase,
}

/// How far a creation has come.
pub enum CreatePhase {
    Begin,
    /// The parent is looked for.
    Parent,
    /// The name is looked for.
    Name,
    /// A number is asked for.
    Id,
    /// The metadata are inserted.
    Meta(i64),
    /// The entry is inserted.
    Entry(i64),
    Commit(i64),
    /// The attributes are read back.
    ReadBack(Getattr),
}

/// The type of entry of a kind of file.
pub open spec fn entry_type_of(kind: FileType) -> EntryType {
    match kind {
        FileType::File => EntryType::File,
        FileType::Dir => EntryType::Directory,
    }
}

/// The type of entry of a kind of file.
fn make_entry_type(kind: FileType) -> (r: EntryType)
    ensures
        r == entry_type_of(kind),
{
    match kind {
        FileType::File => EntryType::File,
        FileType::Dir => EntryType::Directory,
    }
}

/// The metadata of a new file.
pub open spec fn new_file(ino: i64, permission: Permission, now: i64) -> FileMetaModel {
    FileMetaModel {
        inode: ino,
        size: 0,
        permission,
        access_time: now,
        modify_time: now,
        create_time: now,
        nlink: 1,
    }
}

/// The metadata of a new directory.
pub open spec fn new_dir(ino: i64, permission: Permission, now: i64) -> AccessMetaModel {
    AccessMetaModel {
        inode: ino,
        permission,
        access_time: now,
        modify_time: now,
        create_time: now,
        nlink: 2,
    }
}

/// The request that inserts the metadata of a new file or directory; a
/// directory carries the directory bit.
pub open spec fn insert_meta(params: CreateParams, now: i64, ino: i64) -> DbRequestView {
    match params.kind {
        FileType::File => DbRequestView::InsertFile(
            new_file(
                ino,
                Permission { mode: params.mode, uid: params.uid, gid: params.gid },
                now,
            ),
        ),
        FileType::Dir => DbRequestView::InsertDir(
            new_dir(
                ino,
                Permission {
                    mode: params.mode | DIRECTORY_BIT,
                    uid: params.uid,
                    gid: params.gid,
                },
                now,
            ),
        ),
    }
}

impl Create {
    /// The state in another phase.
    pub open spec fn at(self, phase: CreatePhase) -> Create {
        Create { phase, ..self }
    }

    /// The new entry.
    pub open spec fn entry(self) -> EntryView {
        EntryView {
            parent: self.params.parent.0,
            name: self.params.name@,
            entry_type: entry_type_of(self.params.kind),
        }
    }
}

impl DbOperation for Create {
    type State = Create;

    type Output = (Inode, FileAttr);

    type Shown = (Inode, FileAttr);

    open spec fn state(self) -> Create {
        self
    }

    open spec fn shown(out: (Inode, FileAttr)) -> (Inode, FileAttr) {
        out
    }

    open spec fn asks(s: Create) -> DbRequestView {
        match s.phase {
            CreatePhase::Begin => DbRequestView::Begin,
            CreatePhase::Parent => DbRequestView::FindDir(s.params.parent.0),
            CreatePhase::Name => DbRequestView::FindEntry {
                parent: s.params.parent.0,
                name: s.params.name@,
            },
            CreatePhase::Id => DbRequestView::NewId,
            CreatePhase::Meta(ino) => insert_meta(s.params, s.now, ino),
            CreatePhase::Entry(ino) => DbRequestView::InsertEntry(ino, s.entry()),
            CreatePhase::Commit(_) => DbRequestView::Commit,
            CreatePhase::ReadBack(read) => Getattr::asks(read),
        }
    }

    open spec fn after(s: Create, reply: DbReply) -> StepView<Create, (Inode, FileAttr)> {
        match s.phase {
            CreatePhase::Begin => match reply {
                DbReply::Done => StepView::Next(s.at(CreatePhase::Parent)),
                _ => StepView::Done(Err(db_failure(reply))),
            },
            CreatePhase::Parent => match reply {
                DbReply::Dir(Some(_)) => StepView::Next(s.at(CreatePhase::Name)),
                DbReply::Dir(None) => StepView::Done(
                    Err(ErrorView::ParentNotFound(s.params.parent.0)),
                ),
                _ => StepView::Done(Err(db_failure(reply))),
            },
            CreatePhase::Name => match reply {
                DbReply::Entry(None) => StepView::Next(s.at(CreatePhase::Id)),
                DbReply::Entry(Some(_)) => StepView::Done(
                    Err(
                        ErrorView::AlreadyExists {
                            parent: s.params.parent.0,
                            name: s.params.name@,
                        },
                    ),
                ),
                _ => StepView::Done(Err(db_failure(reply))),
            },
            CreatePhase::Id => match reply {
                DbReply::Id(ino) => StepView::Next(s.at(CreatePhase::Meta(ino))),
                _ => StepView::Done(Err(db_failure(reply))),
            },
            CreatePhase::Meta(ino) => match reply {
                DbReply::Done => StepView::Next(s.at(CreatePhase::Entry(ino))),
                _ => StepView::Done(Err(db_failure(reply))),
            },
            CreatePhase::Entry(ino) => match reply {
                DbReply::Done => StepView::Next(s.at(CreatePhase::Commit(ino))),
                _ => StepView::Done(Err(db_failure(reply))),
            },
            CreatePhase::Commit(ino) => match reply {
                DbReply::Done => StepView::Next(
                    s.at(CreatePhase::ReadBack(Getattr { ino, as_dir: false })),
                ),
                _ => StepView::Done(Err(db_failure(reply))),
            },
            CreatePhase::ReadBack(read) => match Getattr::after(read, reply) {
                StepView::Next(more) => StepView::Next(s.at(CreatePhase::ReadBack(more))),
                StepView::Done(Ok(attr)) => StepView::Done(Ok((Inode(read.ino), attr))),
                StepView::Done(Err(e)) => StepView::Done(Err(e)),
            },
        }
    }

    fn request(&self) -> (r: DbRequest) {
        match &self.phase {
            CreatePhase::Begin => DbRequest::Begin,
            CreatePhase::Parent => DbRequest::FindDir(self.params.parent.0),
            CreatePhase::Name => DbRequest::FindEntry {
                parent: self.params.parent.0,
                name: self.params.name.clone(),
            },
            CreatePhase::Id => DbRequest::NewId,
            CreatePhase::Meta(ino) => match self.params.kind {
                FileType::File => DbRequest::InsertFile(
                    FileMetaModel {
                        inode: *ino,
                        size: 0,
                        permission: Permission {
                            mode: self.params.mode,
                            uid: self.params.uid,
                            gid: self.params.gid,
                        },
                        access_time: self.now,
                        modify_time: self.now,
                        create_time: self.now,
                        nlink: 1,
                    },
                ),
                FileType::Dir => DbRequest::InsertDir(
                    AccessMetaModel {
                        inode: *ino,
                        permission: Permission {
                            mode: self.params.mode | DIRECTORY_BIT,
                            uid: self.params.uid,
                            gid: self.params.gid,
                        },
                        access_time: self.now,
                        modify_time: self.now,
                        create_time: self.now,
                        nlink: 2,
                    },
                ),
            },
            CreatePhase::Entry(ino) => DbRequest::InsertEntry(
                ContentMetaModel {
                    inode: *ino,
                    parent_inode: self.params.parent.0,
                    entry_name: self.params.name.clone(),
                    entry_type: make_entry_type(self.params.kind),
                },
            ),
            CreatePhase::Commit(_) => DbRequest::Commit,
            CreatePhase::ReadBack(read) => read.request(),
        }
    }

    fn resume(self, reply: DbReply) -> (r: Step<Self, (Inode, FileAttr)>) {
        let Create { params, now, phase } = self;
        let next = match phase {
            CreatePhase::Begin => match reply {
                DbReply::Done => CreatePhase::Parent,
                _ => return Step::Done(Err(db_failed(reply))),
            },
            CreatePhase::Parent => match reply {
                DbReply::Dir(Some(_)) => CreatePhase::Name,
                DbReply::Dir(None) => {
                    return Step::Done(Err(MetaError::ParentNotFound(params.parent.0)));
                },
                _ => return Step::Done(Err(db_failed(reply))),
            },
            CreatePhase::Name => match reply {
                DbReply::Entry(None) => CreatePhase::Id,
                DbReply::Entry(Some(_)) => {
                    return Step::Done(
                        Err(
                            MetaError::AlreadyExists { parent: params.parent.0, name: params.name },
                        ),
                    );
                },
                _ => return Step::Done(Err(db_failed(reply))),
            },
            CreatePhase::Id => match reply {
                DbReply::Id(ino) => CreatePhase::Meta(ino),
                _ => return Step::Done(Err(db_failed(reply))),
            },
            CreatePhase::Meta(ino) => match reply {
                DbReply::Done => CreatePhase::Entry(ino),
                _ => return Step::Done(Err(db_failed(reply))),
            },
            CreatePhase::Entry(ino) => match reply {
                DbReply::Done => CreatePhase::Commit(ino),
                _ => return Step::Done(Err(db_failed(reply))),
            },
            CreatePhase::Commit(ino) => match reply {
                DbReply::Done => CreatePhase::ReadBack(Getattr { ino, as_dir: false }),
                _ => return Step::Done(Err(db_failed(reply))),
            },
            CreatePhase::ReadBack(read) => {
                let ino: i64 = read.ino;
                match read.resume(reply) {
                    Step::Next(more) => CreatePhase::ReadBack(more),
                    Step::Done(Ok(attr)) => return Step::Done(Ok((Inode(ino), attr))),
                    Step::Done(Err(e)) => return Step::Done(Err(e)),
                }
            },
        };
        Step::Next(Create { params, now, phase: next })
    }
}

/// The metadata of a file after an update.
pub open spec fn updated_file(m: FileMetaModel, mask: SetAttrMask) -> FileMetaModel {
    FileMetaModel {
        size: match mask.size {
            Some(size) => size as i64,
            None => m.size,
        },
        permission: Permission {
            mode: match mask.mode {
                Some(mode) => mode,
                None => m.permission.mode,
            },
            uid: match mask.uid {
                Some(uid) => uid,
                None => m.permission.uid,
            },
            gid: match mask.gid {
                Some(gid) => gid,
                None => m.permission.gid,
            },
        },
        access_time: match mask.atime {
            Some(atime) => atime,
            None => m.access_time,
        },
        modify_time: match mask.mtime {
            Some(mtime) => mtime,
            None => m.modify_time,
        },
        ..m
    }
}

/// The metadata of a directory after an update; the size is no matter of it, and
/// the directory bit stays.
pub open spec fn updated_dir(m: AccessMetaModel, mask: SetAttrMask) -> AccessMetaModel {
    AccessMetaModel {
        permission: Permission {
            mode: match mask.mode {
                Some(mode) => mode | DIRECTORY_BIT,
                None => m.permission.mode,
            },
            uid: match mask.uid {
                Some(uid) => uid,
                None => m.permission.uid,
            },
            gid: match mask.gid {
                Some(gid) => gid,
                None => m.permission.gid,
            },
        },
        access_time: match mask.atime {
            Some(atime) => atime,
            None => m.access_time,
        },
        modify_time: match mask.mtime {
            Some(mtime) => mtime,
            None => m.modify_time,
        },
        ..m
    }
}

/// The metadata of a file after an update.
fn update_file(m: FileMetaModel, mask: &SetAttrMask) -> (r: FileMetaModel)
    ensures
        r == updated_file(m, *mask),
{
    let mut m = m;
    if let Some(size) = mask.size {
        m.size = size as i64;
    }
    if let Some(mode) = mask.mode {
        m.permission.mode = mode;
    }
    if let Some(uid) = mask.uid {
        m.permission.uid = uid;
    }
    if let Some(gid) = mask.gid {
        m.permission.gid = gid;
    }
    if let Some(atime) = mask.atime {
        m.access_time = atime;
    }
    if let Some(mtime) = mask.mtime {
        m.modify_time = mtime;
    }
    m
}

/// The metadata of a directory after an update.
fn update_dir(m: AccessMetaModel, mask: &SetAttrMask) -> (r: AccessMetaModel)
    ensures
        r == updated_dir(m, *mask),
{
    let mut m = m;
    if let Some(mode) = mask.mode {
        m.permission.mode = mode | DIRECTORY_BIT;
    }
    if let Some(uid) = mask.uid {
        m.permission.uid = uid;
    }
    if let Some(gid) = mask.gid {
        m.permission.gid = gid;
    }
    if let Some(atime) = mask.atime {
        m.access_time = atime;
    }
    if let Some(mtime) = mask.mtime {
        m.modify_time = mtime;
    }
    m
}

/// Update of attributes.
pub struct Setattr {
    pub ino: i64,
    pub mask: SetAttrMask,
    pub phase: SetattrPhase,
}

/// How far an update has come.
pub enum SetattrPhase {
    Begin,
    /// The inode is looked for among the files.
    File,
    /// The inode is looked for among the directories.
    Dir,
    /// The metadata of a file are written.
    PutFile(FileMetaModel),
    /// The metadata of a directory are written.
    PutDir(AccessMetaModel),
    Commit,
    /// The attributes are read back.
    ReadBack(Getattr),
}

impl Setattr {
    /// The state in another phase.
    pub open spec fn at(self, phase: SetattrPhase) -> Setattr {
        Setattr { phase, ..self }
    }
}

impl DbOperation for Setattr {
    type State = Setattr;

    type Output = FileAttr;

    type Shown = FileAttr;

    open spec fn state(self) -> Setattr {
        self
    }

    open spec fn shown(out: FileAttr) -> FileAttr {
        out
    }

    open spec fn asks(s: Setattr) -> DbRequestView {
        match s.phase {
            SetattrPhase::Begin => DbRequestView::Begin,
            SetattrPhase::File => DbRequestView::FindFile(s.ino),
            SetattrPhase::Dir => DbRequestView::FindDir(s.ino),
            SetattrPhase::PutFile(m) => DbRequestView::UpdateFile(m),
            SetattrPhase::PutDir(m) => DbRequestView::UpdateDir(m),
            SetattrPhase::Commit => DbRequestView::Commit,
            SetattrPhase::ReadBack(read) => Getattr::asks(read),
        }
    }

    open spec fn after(s: Setattr, reply: DbReply) -> StepView<Setattr, FileAttr> {
        match s.phase {
            SetattrPhase::Begin => match reply {
                DbReply::Done => StepView::Next(s.at(SetattrPhase::File)),
                _ => StepView::Done(Err(db_failure(reply))),
            },
            SetattrPhase::File => match reply {
                DbReply::File(Some(m)) => StepView::Next(
                    s.at(SetattrPhase::PutFile(updated_file(m, s.mask))),
                ),
                DbReply::File(None) => StepView::Next(s.at(SetattrPhase::Dir)),
                _ => StepView::Done(Err(db_failure(reply))),
            },
            SetattrPhase::Dir => match reply {
                DbReply::Dir(Some(m)) => StepView::Next(
                    s.at(SetattrPhase::PutDir(updated_dir(m, s.mask))),
                ),
                DbReply::Dir(None) => StepView::Done(Err(ErrorView::NotFound(s.ino))),
                _ => StepView::Done(Err(db_failure(reply))),
            },
            SetattrPhase::PutFile(_) => match reply {
                DbReply::Done => StepView::Next(s.at(SetattrPhase::Commit)),
                _ => StepView::Done(Err(db_failure(reply))),
            },
            SetattrPhase::PutDir(_) => match reply {
                DbReply::Done => StepView::Next(s.at(SetattrPhase::Commit)),
                _ => StepView::Done(Err(db_failure(reply))),
            },
            SetattrPhase::Commit => match reply {
                DbReply::Done => StepView::Next(
                    s.at(SetattrPhase::ReadBack(Getattr { ino: s.ino, as_dir: false })),
                ),
                _ => StepView::Done(Err(db_failure(reply))),
            },
            SetattrPhase::ReadBack(read) => match Getattr::after(read, reply) {
                StepView::Next(more) => StepView::Next(s.at(SetattrPhase::ReadBack(more))),
                StepView::Done(r) => StepView::Done(r),
            },
        }
    }

    fn request(&self) -> (r: DbRequest) {
        match &self.phase {
            SetattrPhase::Begin => DbRequest::Begin,
            SetattrPhase::File => DbRequest::FindFile(self.ino),
            SetattrPhase::Dir => DbRequest::FindDir(self.ino),
            SetattrPhase::PutFile(m) => DbRequest::UpdateFile(*m),
            SetattrPhase::PutDir(m) => DbRequest::UpdateDir(*m),
            SetattrPhase::Commit => DbRequest::Commit,
            SetattrPhase::ReadBack(read) => read.request(),
        }
    }

    fn resume(self, reply: DbReply) -> (r: Step<Self, FileAttr>) {
        let Setattr { ino, mask, phase } = self;
        let next = match phase {
            SetattrPhase::Begin => match reply {
                DbReply::Done => SetattrPhase::File,
                _ => return Step::Done(Err(db_failed(reply))),
            },
            SetattrPhase::File => match reply {
                DbReply::File(Some(m)) => SetattrPhase::PutFile(update_file(m, &mask)),
                DbReply::File(None) => SetattrPhase::Dir,
                _ => return Step::Done(Err(db_failed(reply))),
            },
            SetattrPhase::Dir => match reply {
                DbReply::Dir(Some(m)) => SetattrPhase::PutDir(update_dir(m, &mask)),
                DbReply::Dir(None) => return Step::Done(Err(MetaError::NotFound(ino))),
                _ => return Step::Done(Err(db_failed(reply))),
            },
            SetattrPhase::PutFile(_) => match reply {
                DbReply::Done => SetattrPhase::Commit,
                _ => return Step::Done(Err(db_failed(reply))),
            },
            SetattrPhase::PutDir(_) => match reply {
                DbReply::Done => SetattrPhase::Commit,
                _ => return Step::Done(Err(db_failed(reply))),
            },
            SetattrPhase::Commit => match reply {
                DbReply::Done => SetattrPhase::ReadBack(Getattr { ino, as_dir: false }),
                _ => return Step::Done(Err(db_failed(reply))),
            },
            SetattrPhase::ReadBack(read) => match read.resume(reply) {
                Step::Next(more) => SetattrPhase::ReadBack(more),
                Step::Done(r) => return Step::Done(r),
            },
        };
        Step::Next(Setattr { ino, mask, phase: next })
    }
}

} // verus!
