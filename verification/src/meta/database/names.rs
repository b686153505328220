//! Renaming and removal on the tables.

use crate::meta::database::db::{DbOperation, DbReply, DbRequest, DbRequestView, EntryView};
use crate::meta::database::store::{db_failed, db_failure};
use crate::meta::entities::{ContentMetaModel, EntryType, FileMetaModel};
use crate::meta::store::{ErrorView, MetaError, Step, StepView};
use vstd::prelude::*;
use vstd::string::*;

verus! {

/// The move of a name. What stands under the new name is replaced, unless it is
/// a directory with entries.
pub struct Rename {
    pub old_parent: i64,
    pub old_name: String,
    pub new_parent: i64,
    pub new_name: String,
    pub phase: RenamePhase,
}

/// How far a move has come. The source is the inode that moves, with its type.
pub enum RenamePhase {
    Begin,
    /// The old name is looked for.
    Source,
    /// The new parent is looked for.
    Parent(i64, EntryType),
    /// The new name is looked for.
    Target(i64, EntryType),
    /// The entries of the directory that is to be replaced are counted.
    Count(i64, EntryType, i64),
    /// What stands under the new name is deleted.
    Replace(i64, EntryType, i64),
    /// The old entry is deleted.
    Delete(i64, EntryType),
    /// The new entry is inserted.
    Insert(i64, EntryType),
    Commit,
}

impl Rename {
    /// The state in another phase.
    pub open spec fn at(self, phase: RenamePhase) -> Rename {
        Rename { phase, ..self }
    }
}

impl DbOperation for Rename {
    type State = Rename;

    type Output = ();

    type Shown = ();

    open spec fn state(self) -> Rename {
        self
    }

    open spec fn shown(out: ()) -> () {
        out
    }

    open spec fn asks(s: Rename) -> DbRequestView {
        match s.phase {
            RenamePhase::Begin => DbRequestView::Begin,
            RenamePhase::Source => DbRequestView::FindEntry {
                parent: s.old_parent,
                name: s.old_name@,
            },
            RenamePhase::Parent(_, _) => DbRequestView::FindDir(s.new_parent),
            RenamePhase::Target(_, _) => DbRequestView::FindEntry {
                parent: s.new_parent,
                name: s.new_name@,
            },
            RenamePhase::Count(_, _, target) => DbRequestView::CountEntries(target),
            RenamePhase::Replace(_, _, target) => DbRequestView::DeleteEntry(target),
            RenamePhase::Delete(ino, _) => DbRequestView::DeleteEntry(ino),
            RenamePhase::Insert(ino, entry_type) => DbRequestView::InsertEntry(
                ino,
                EntryView { parent: s.new_parent, name: s.new_name@, entry_type },
            ),
            RenamePhase::Commit => DbRequestView::Commit,
        }
    }

    open spec fn after(s: Rename, reply: DbReply) -> StepView<Rename, ()> {
        match s.phase {
            RenamePhase::Begin => match reply {
                DbReply::Done => StepView::Next(s.at(RenamePhase::Source)),
                _ => StepView::Done(Err(db_failure(reply))),
            },
            RenamePhase::Source => match reply {
                DbReply::Entry(Some(c)) => StepView::Next(
                    s.at(RenamePhase::Parent(c.inode, c.entry_type)),
                ),
                DbReply::Entry(None) => StepView::Done(Err(ErrorView::NotFound(s.old_parent))),
                _ => StepView::Done(Err(db_failure(reply))),
            },
            RenamePhase::Parent(ino, entry_type) => match reply {
                DbReply::Dir(Some(_)) => StepView::Next(s.at(RenamePhase::Target(ino, entry_type))),
                DbReply::Dir(None) => StepView::Done(Err(ErrorView::ParentNotFound(s.new_parent))),
                _ => StepView::Done(Err(db_failure(reply))),
            },
            RenamePhase::Target(ino, entry_type) => match reply {
                DbReply::Entry(Some(c)) => StepView::Next(
                    s.at(
                        match c.entry_type {
                            EntryType::Directory => RenamePhase::Count(ino, entry_type, c.inode),
                            EntryType::File => RenamePhase::Replace(ino, entry_type, c.inode),
                        },
                    ),
                ),
                DbReply::Entry(None) => StepView::Next(s.at(RenamePhase::Delete(ino, entry_type))),
                _ => StepView::Done(Err(db_failure(reply))),
            },
            RenamePhase::Count(ino, entry_type, target) => match reply {
                DbReply::Count(n) => if n > 0 {
                    StepView::Done(Err(ErrorView::DirectoryNotEmpty(target)))
                } else {
                    StepView::Next(s.at(RenamePhase::Replace(ino, entry_type, target)))
                },
                _ => StepView::Done(Err(db_failure(reply))),
            },
            RenamePhase::Replace(ino, entry_type, _) => match reply {
                DbReply::Done => StepView::Next(s.at(RenamePhase::Delete(ino, entry_type))),
                _ => StepView::Done(Err(db_failure(reply))),
            },
            RenamePhase::Delete(ino, entry_type) => match reply {
                DbReply::Done => StepView::Next(s.at(RenamePhase::Insert(ino, entry_type))),
                _ => StepView::Done(Err(db_failure(reply))),
            },
            RenamePhase::Insert(_, _) => match reply {
                DbReply::Done => StepView::Next(s.at(RenamePhase::Commit)),
                _ => StepView::Done(Err(db_failure(reply))),
            },
            RenamePhase::Commit => match reply {
                DbReply::Done => StepView::Done(Ok(())),
                _ => StepView::Done(Err(db_failure(reply))),
            },
        }
    }

    fn request(&self) -> (r: DbRequest) {
        match &self.phase {
            RenamePhase::Begin => DbRequest::Begin,
            RenamePhase::Source => DbRequest::FindEntry {
                parent: self.old_parent,
                name: self.old_name.clone(),
            },
            RenamePhase::Parent(_, _) => DbRequest::FindDir(self.new_parent),
            RenamePhase::Target(_, _) => DbRequest::FindEntry {
                parent: self.new_parent,
                name: self.new_name.clone(),
            },
            RenamePhase::Count(_, _, target) => DbRequest::CountEntries(*target),
            RenamePhase::Replace(_, _, target) => DbRequest::DeleteEntry(*target),
            RenamePhase::Delete(ino, _) => DbRequest::DeleteEntry(*ino),
            RenamePhase::Insert(ino, entry_type) => DbRequest::InsertEntry(
                ContentMetaModel {
                    inode: *ino,
                    parent_inode: self.new_parent,
                    entry_name: self.new_name.clone(),
                    entry_type: *entry_type,
                },
            ),
            RenamePhase::Commit => DbRequest::Commit,
        }
    }

    fn resume(self, reply: DbReply) -> (r: Step<Self, ()>) {
        let Rename { old_parent, old_name, new_parent, new_name, phase } = self;
        let next = match phase {
            RenamePhase::Begin => match reply {
                DbReply::Done => RenamePhase::Source,
                _ => return Step::Done(Err(db_failed(reply))),
            },
            RenamePhase::Source => match reply {
                DbReply::Entry(Some(c)) => RenamePhase::Parent(c.inode, c.entry_type),
                DbReply::Entry(None) => return Step::Done(Err(MetaError::NotFound(old_parent))),
                _ => return Step::Done(Err(db_failed(reply))),
            },
            RenamePhase::Parent(ino, entry_type) => match reply {
                DbReply::Dir(Some(_)) => RenamePhase::Target(ino, entry_type),
                DbReply::Dir(None) => {
                    return Step::Done(Err(MetaError::ParentNotFound(new_parent)));
                },
                _ => return Step::Done(Err(db_failed(reply))),
            },
            RenamePhase::Target(ino, entry_type) => match reply {
                DbReply::Entry(Some(c)) => match c.entry_type {
                    EntryType::Directory => RenamePhase::Count(ino, entry_type, c.inode),
                    EntryType::File => RenamePhase::Replace(ino, entry_type, c.inode),
                },
                DbReply::Entry(None) => RenamePhase::Delete(ino, entry_type),
                _ => return Step::Done(Err(db_failed(reply))),
            },
            RenamePhase::Count(ino, entry_type, target) => match reply {
                DbReply::Count(n) => {
                    if n > 0 {
                        return Step::Done(Err(MetaError::DirectoryNotEmpty(target)));
                    }
                    RenamePhase::Replace(ino, entry_type, target)
                },
                _ => return Step::Done(Err(db_failed(reply))),
            },
            RenamePhase::Replace(ino, entry_type, _) => match reply {
                DbReply::Done => RenamePhase::Delete(ino, entry_type),
                _ => return Step::Done(Err(db_failed(reply))),
            },
            RenamePhase::Delete(ino, entry_type) => match reply {
                DbReply::Done => RenamePhase::Insert(ino, entry_type),
                _ => return Step::Done(Err(db_failed(reply))),
            },
            RenamePhase::Insert(_, _) => match reply {
                DbReply::Done => RenamePhase::Commit,
                _ => return Step::Done(Err(db_failed(reply))),
            },
            RenamePhase::Commit => match reply {
                DbReply::Done => return Step::Done(Ok(())),
                _ => return Step::Done(Err(db_failed(reply))),
            },
        };
        Step::Next(Rename { old_parent, old_name, new_parent, new_name, phase: next })
    }
}

/// The removal of a file.
pub struct Unlink {
    pub parent: i64,
    pub name: String,
    pub phase: UnlinkPhase,
}

/// How far the removal of a file has come.
pub enum UnlinkPhase {
    Begin,
    /// The name is looked for.
    Find,
    /// The entry is deleted.
    Delete(i64),
    /// The metadata are looked for.
    Meta(i64),
    /// The metadata are deleted with the last link.
    Drop(i64),
    /// The metadata lose a link.
    Keep(FileMetaModel),
    Commit,
}

impl Unlink {
    /// The state in another phase.
    pub open spec fn at(self, phase: UnlinkPhase) -> Unlink {
        Unlink { phase, ..self }
    }
}

/// The metadata of a file that loses a link.
pub open spec fn with_a_link_less(m: FileMetaModel) -> FileMetaModel {
    FileMetaModel { nlink: (m.nlink - 1) as i32, ..m }
}

impl DbOperation for Unlink {
    type State = Unlink;

    type Output = ();

    type Shown = ();

    open spec fn state(self) -> Unlink {
        self
    }

    open spec fn shown(out: ()) -> () {
        out
    }

    open spec fn asks(s: Unlink) -> DbRequestView {
        match s.phase {
            UnlinkPhase::Begin => DbRequestView::Begin,
            UnlinkPhase::Find => DbRequestView::FindEntry { parent: s.parent, name: s.name@ },
            UnlinkPhase::Delete(ino) => DbRequestView::DeleteEntry(ino),
            UnlinkPhase::Meta(ino) => DbRequestView::FindFile(ino),
            UnlinkPhase::Drop(ino) => DbRequestView::DeleteFile(ino),
            UnlinkPhase::Keep(m) => DbRequestView::UpdateFile(m),
            UnlinkPhase::Commit => DbRequestView::Commit,
        }
    }

    open spec fn after(s: Unlink, reply: DbReply) -> StepView<Unlink, ()> {
        match s.phase {
            UnlinkPhase::Begin => match reply {
                DbReply::Done => StepView::Next(s.at(UnlinkPhase::Find)),
                _ => StepView::Done(Err(db_failure(reply))),
            },
            UnlinkPhase::Find => match reply {
                DbReply::Entry(Some(c)) => match c.entry_type {
                    EntryType::Directory => StepView::Done(
                        Err(ErrorView::Internal("Cannot unlink directory, use rmdir"@)),
                    ),
                    EntryType::File => StepView::Next(s.at(UnlinkPhase::Delete(c.inode))),
                },
                DbReply::Entry(None) => StepView::Done(Err(ErrorView::NotFound(s.parent))),
                _ => StepView::Done(Err(db_failure(reply))),
            },
            UnlinkPhase::Delete(ino) => match reply {
                DbReply::Done => StepView::Next(s.at(UnlinkPhase::Meta(ino))),
                _ => StepView::Done(Err(db_failure(reply))),
            },
            UnlinkPhase::Meta(ino) => match reply {
                DbReply::File(Some(m)) => if m.nlink <= 1 {
                    StepView::Next(s.at(UnlinkPhase::Drop(m.inode)))
                } else {
                    StepView::Next(s.at(UnlinkPhase::Keep(with_a_link_less(m))))
                },
                DbReply::File(None) => StepView::Next(s.at(UnlinkPhase::Commit)),
                _ => StepView::Done(Err(db_failure(reply))),
            },
            UnlinkPhase::Drop(_) => match reply {
                DbReply::Done => StepView::Next(s.at(UnlinkPhase::Commit)),
                _ => StepView::Done(Err(db_failure(reply))),
            },
            UnlinkPhase::Keep(_) => match reply {
                DbReply::Done => StepView::Next(s.at(UnlinkPhase::Commit)),
                _ => StepView::Done(Err(db_failure(reply))),
            },
            UnlinkPhase::Commit => match reply {
                DbReply::Done => StepView::Done(Ok(())),
                _ => StepView::Done(Err(db_failure(reply))),
            },
        }
    }

    fn request(&self) -> (r: DbRequest) {
        match &self.phase {
            UnlinkPhase::Begin => DbRequest::Begin,
            UnlinkPhase::Find => DbRequest::FindEntry {
                parent: self.parent,
                name: self.name.clone(),
            },
            UnlinkPhase::Delete(ino) => DbRequest::DeleteEntry(*ino),
            UnlinkPhase::Meta(ino) => DbRequest::FindFile(*ino),
            UnlinkPhase::Drop(ino) => DbRequest::DeleteFile(*ino),
            UnlinkPhase::Keep(m) => DbRequest::UpdateFile(*m),
            UnlinkPhase::Commit => DbRequest::Commit,
        }
    }

    fn resume(self, reply: DbReply) -> (r: Step<Self, ()>) {
        let Unlink { parent, name, phase } = self;
        let next = match phase {
            UnlinkPhase::Begin => match reply {
                DbReply::Done => UnlinkPhase::Find,
                _ => return Step::Done(Err(db_failed(reply))),
            },
            UnlinkPhase::Find => match reply {
                DbReply::Entry(Some(c)) => match c.entry_type {
                    EntryType::Directory => {
                        return Step::Done(
                            Err(
                                MetaError::Internal(
                                    String::from_str("Cannot unlink directory, use rmdir"),
                                ),
                            ),
                        );
                    },
                    EntryType::File => UnlinkPhase::Delete(c.inode),
                },
                DbReply::Entry(None) => return Step::Done(Err(MetaError::NotFound(parent))),
                _ => return Step::Done(Err(db_failed(reply))),
            },
            UnlinkPhase::Delete(ino) => match reply {
                DbReply::Done => UnlinkPhase::Meta(ino),
                _ => return Step::Done(Err(db_failed(reply))),
            },
            UnlinkPhase::Meta(_) => match reply {
                DbReply::File(Some(m)) => {
                    if m.nlink <= 1 {
                        UnlinkPhase::Drop(m.inode)
                    } else {
                        UnlinkPhase::Keep(FileMetaModel { nlink: m.nlink - 1, ..m })
                    }
                },
                DbReply::File(None) => UnlinkPhase::Commit,
                _ => return Step::Done(Err(db_failed(reply))),
            },
            UnlinkPhase::Drop(_) => match reply {
                DbReply::Done => UnlinkPhase::Commit,
                _ => return Step::Done(Err(db_failed(reply))),
            },
            UnlinkPhase::Keep(_) => match reply {
                DbReply::Done => UnlinkPhase::Commit,
                _ => return Step::Done(Err(db_failed(reply))),
            },
            UnlinkPhase::Commit => match reply {
                DbReply::Done => return Step::Done(Ok(())),
                _ => return Step::Done(Err(db_failed(reply))),
            },
        };
        Step::Next(Unlink { parent, name, phase: next })
    }
}

/// The removal of an empty directory.
pub struct Rmdir {
    pub parent: i64,
    pub name: String,
    pub phase: RmdirPhase,
}

/// How far the removal of a directory has come.
pub enum RmdirPhase {
    Begin,
    /// The name is looked for.
    Find,
    /// The entries are counted.
    Count(i64),
    /// The entry is deleted.
    Delete(i64),
    /// The metadata are deleted.
    Meta(i64),
    Commit,
}

impl Rmdir {
    /// The state in another phase.
    pub open spec fn at(self, phase: RmdirPhase) -> Rmdir {
        Rmdir { phase, ..self }
    }
}

impl DbOperation for Rmdir {
    type State = Rmdir;

    type Output = ();

    type Shown = ();

    open spec fn state(self) -> Rmdir {
        self
    }

    open spec fn shown(out: ()) -> () {
        out
    }

    open spec fn asks(s: Rmdir) -> DbRequestView {
        match s.phase {
            RmdirPhase::Begin => DbRequestView::Begin,
            RmdirPhase::Find => DbRequestView::FindEntry { parent: s.parent, name: s.name@ },
            RmdirPhase::Count(ino) => DbRequestView::CountEntries(ino),
            RmdirPhase::Delete(ino) => DbRequestView::DeleteEntry(ino),
            RmdirPhase::Meta(ino) => DbRequestView::DeleteDir(ino),
            RmdirPhase::Commit => DbRequestView::Commit,
        }
    }

    open spec fn after(s: Rmdir, reply: DbReply) -> StepView<Rmdir, ()> {
        match s.phase {
            RmdirPhase::Begin => match reply {
                DbReply::Done => StepView::Next(s.at(RmdirPhase::Find)),
                _ => StepView::Done(Err(db_failure(reply))),
            },
            RmdirPhase::Find => match reply {
                DbReply::Entry(Some(c)) => match c.entry_type {
                    EntryType::File => StepView::Done(Err(ErrorView::NotDirectory(c.inode))),
                    EntryType::Directory => StepView::Next(s.at(RmdirPhase::Count(c.inode))),
                },
                DbReply::Entry(None) => StepView::Done(Err(ErrorView::NotFound(s.parent))),
                _ => StepView::Done(Err(db_failure(reply))),
            },
            RmdirPhase::Count(ino) => match reply {
                DbReply::Count(n) => if n > 0 {
                    StepView::Done(Err(ErrorView::DirectoryNotEmpty(ino)))
                } else {
                    StepView::Next(s.at(RmdirPhase::Delete(ino)))
                },
                _ => StepView::Done(Err(db_failure(reply))),
            },
            RmdirPhase::Delete(ino) => match reply {
                DbReply::Done => StepView::Next(s.at(RmdirPhase::Meta(ino))),
                _ => StepView::Done(Err(db_failure(reply))),
            },
            RmdirPhase::Meta(_) => match reply {
                DbReply::Done => StepView::Next(s.at(RmdirPhase::Commit)),
                _ => StepView::Done(Err(db_failure(reply))),
            },
            RmdirPhase::Commit => match reply {
                DbReply::Done => StepView::Done(Ok(())),
                _ => StepView::Done(Err(db_failure(reply))),
            },
        }
    }

    fn request(&self) -> (r: DbRequest) {
        match &self.phase {
            RmdirPhase::Begin => DbRequest::Begin,
            RmdirPhase::Find => DbRequest::FindEntry {
                parent: self.parent,
                name: self.name.clone(),
            },
            RmdirPhase::Count(ino) => DbRequest::CountEntries(*ino),
            RmdirPhase::Delete(ino) => DbRequest::DeleteEntry(*ino),
            RmdirPhase::Meta(ino) => DbRequest::DeleteDir(*ino),
            RmdirPhase::Commit => DbRequest::Commit,
        }
    }

    fn resume(self, reply: DbReply) -> (r: Step<Self, ()>) {
        let Rmdir { parent, name, phase } = self;
        let next = match phase {
            RmdirPhase::Begin => match reply {
                DbReply::Done => RmdirPhase::Find,
                _ => return Step::Done(Err(db_failed(reply))),
            },
            RmdirPhase::Find => match reply {
                DbReply::Entry(Some(c)) => match c.entry_type {
                    EntryType::File => return Step::Done(Err(MetaError::NotDirectory(c.inode))),
                    EntryType::Directory => RmdirPhase::Count(c.inode),
                },
                DbReply::Entry(None) => return Step::Done(Err(MetaError::NotFound(parent))),
                _ => return Step::Done(Err(db_failed(reply))),
            },
            RmdirPhase::Count(ino) => match reply {
                DbReply::Count(n) => {
                    if n > 0 {
                        return Step::Done(Err(MetaError::DirectoryNotEmpty(ino)));
                    }
                    RmdirPhase::Delete(ino)
                },
                _ => return Step::Done(Err(db_failed(reply))),
            },
            RmdirPhase::Delete(ino) => match reply {
                DbReply::Done => RmdirPhase::Meta(ino),
                _ => return Step::Done(Err(db_failed(reply))),
            },
            RmdirPhase::Meta(_) => match reply {
                DbReply::Done => RmdirPhase::Commit,
                _ => return Step::Done(Err(db_failed(reply))),
            },
            RmdirPhase::Commit => match reply {
                DbReply::Done => return Step::Done(Ok(())),
                _ => return Step::Done(Err(db_failed(reply))),
            },
        };
        Step::Next(Rmdir { parent, name, phase: next })
    }
}

} // verus!
