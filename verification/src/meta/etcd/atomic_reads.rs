//! Reads of the file system on the key-value service, and the update of a size.

use crate::meta::entities::{
    AccessMetaModel, ContentMetaModel, EntryType, EtcdEntryInfo, EtcdPlacedEntry, FileMetaModel,
};
use crate::meta::etcd::atomic_store::{read_error, read_failure};
use crate::meta::etcd::cas::{internal, internal_error};
use crate::meta::etcd::kv::{
    Key, KeyView, Meaning, Operation, Reply, Request, RequestView, Shape, Value,
};
use crate::meta::etcd::store::{block_count, blocks_of};
use crate::meta::permission::Permission;
use crate::meta::store::{
    DirEntry, ErrorView, FileAttr, FileType, MetaError, Step, StepView,
};
use crate::text::{components, path_components, texts};
use vstd::prelude::*;
use vstd::string::*;

verus! {

/// The metadata of a directory in the form of a row.
pub open spec fn access_meta(ino: i64, info: EtcdEntryInfo) -> AccessMetaModel {
    AccessMetaModel {
        inode: ino,
        permission: info.permission,
        access_time: info.access_time,
        modify_time: info.modify_time,
        create_time: info.create_time,
        nlink: info.nlink as i32,
    }
}

/// The metadata of the root directory at a time.
pub open spec fn root_access_meta(now: i64) -> AccessMetaModel {
    AccessMetaModel {
        inode: 1,
        permission: Permission { mode: 0o40755, uid: 0, gid: 0 },
        access_time: now,
        modify_time: now,
        create_time: now,
        nlink: 2,
    }
}

/// The metadata of a file in the form of a row.
pub open spec fn file_meta(ino: i64, info: EtcdEntryInfo) -> FileMetaModel {
    FileMetaModel {
        inode: ino,
        size: match info.size {
            Some(size) => size,
            None => 0,
        },
        permission: info.permission,
        access_time: info.access_time,
        modify_time: info.modify_time,
        create_time: info.create_time,
        nlink: info.nlink as i32,
    }
}

/// What a read of the metadata of an inode gave. A failure counts as no metadata.
pub open spec fn lenient_info(reply: Reply) -> Option<EtcdEntryInfo> {
    match reply {
        Reply::Value(Some((Value::Placed(e), _))) => Some(e.info),
        _ => None,
    }
}

/// What a read of the metadata of an inode gave.
fn info_of(reply: &Reply) -> (r: Option<EtcdEntryInfo>)
    ensures
        r == lenient_info(*reply),
{
    match reply {
        Reply::Value(Some((Value::Placed(e), _))) => Some(e.info),
        _ => None,
    }
}

/// The metadata of a directory, given what was read of the inode: those of the
/// root need no reading; a file has none.
pub fn get_access_meta(ino: i64, now: i64, reply: &Reply) -> (r: Option<AccessMetaModel>)
    ensures
        r == (if ino == 1 {
            Some(root_access_meta(now))
        } else {
            match lenient_info(*reply) {
                Some(info) => if info.is_file {
                    None
                } else {
                    Some(access_meta(ino, info))
                },
                None => None,
            }
        }),
{
    if ino == 1 {
        return Some(
            AccessMetaModel {
                inode: 1,
                permission: Permission { mode: 0o40755, uid: 0, gid: 0 },
                access_time: now,
                modify_time: now,
                create_time: now,
                nlink: 2,
            },
        );
    }
    match info_of(reply) {
        Some(info) => if info.is_file {
            None
        } else {
            Some(
                AccessMetaModel {
                    inode: ino,
                    permission: info.permission,
                    access_time: info.access_time,
                    modify_time: info.modify_time,
                    create_time: info.create_time,
                    nlink: info.nlink as i32,
                },
            )
        },
        None => None,
    }
}

/// The metadata of a file, given what was read of the inode; a directory has none.
pub fn get_file_meta(ino: i64, reply: &Reply) -> (r: Option<FileMetaModel>)
    ensures
        r == (match lenient_info(*reply) {
            Some(info) => if info.is_file {
                Some(file_meta(ino, info))
            } else {
                None
            },
            None => None,
        }),
{
    match info_of(reply) {
        Some(info) => if info.is_file {
            Some(
                FileMetaModel {
                    inode: ino,
                    size: match info.size {
                        Some(size) => size,
                        None => 0,
                    },
                    permission: info.permission,
                    access_time: info.access_time,
                    modify_time: info.modify_time,
                    create_time: info.create_time,
                    nlink: info.nlink as i32,
                },
            )
        } else {
            None
        },
        None => None,
    }
}

/// The attributes of a directory that its row stands for.
pub open spec fn dir_attr(m: AccessMetaModel) -> FileAttr {
    FileAttr {
        ino: m.inode,
        size: 4096,
        blocks: 8,
        kind: FileType::Dir,
        mode: m.permission.mode,
        uid: m.permission.uid,
        gid: m.permission.gid,
        atime: m.access_time,
        mtime: m.modify_time,
        ctime: m.create_time,
        nlink: m.nlink as u32,
        blksize: 4096,
        rdev: 0,
        version: 0,
    }
}

/// The attributes of a file that its row stands for.
pub open spec fn file_attr(m: FileMetaModel) -> FileAttr {
    FileAttr {
        ino: m.inode,
        size: m.size as u64,
        blocks: blocks_of(m.size as u64 as int) as u64,
        kind: FileType::File,
        mode: m.permission.mode,
        uid: m.permission.uid,
        gid: m.permission.gid,
        atime: m.access_time,
        mtime: m.modify_time,
        ctime: m.create_time,
        nlink: m.nlink as u32,
        blksize: 4096,
        rdev: 0,
        version: 0,
    }
}

/// The attributes of a directory that its row stands for.
pub fn attr_of_dir(m: &AccessMetaModel) -> (r: FileAttr)
    ensures
        r == dir_attr(*m),
{
    FileAttr {
        ino: m.inode,
        size: 4096,
        blocks: 8,
        kind: FileType::Dir,
        mode: m.permission.mode,
        uid: m.permission.uid,
        gid: m.permission.gid,
        atime: m.access_time,
        mtime: m.modify_time,
        ctime: m.create_time,
        nlink: m.nlink as u32,
        blksize: 4096,
        rdev: 0,
        version: 0,
    }
}

/// The attributes of a file that its row stands for.
pub fn attr_of_file(m: &FileMetaModel) -> (r: FileAttr)
    ensures
        r == file_attr(*m),
{
    FileAttr {
        ino: m.inode,
        size: m.size as u64,
        blocks: block_count(m.size as u64),
        kind: FileType::File,
        mode: m.permission.mode,
        uid: m.permission.uid,
        gid: m.permission.gid,
        atime: m.access_time,
        mtime: m.modify_time,
        ctime: m.create_time,
        nlink: m.nlink as u32,
        blksize: 4096,
        rdev: 0,
        version: 0,
    }
}

/// Attributes of an inode, if it has any: as a file first, then as a directory.
pub struct Stat {
    pub ino: i64,
    pub now: i64,
    pub as_dir: bool,
}

impl Operation for Stat {
    type State = Stat;

    type Output = Option<FileAttr>;

    type Shown = Option<FileAttr>;

    open spec fn state(self) -> Stat {
        self
    }

    open spec fn shown(out: Option<FileAttr>) -> Option<FileAttr> {
        out
    }

    open spec fn ready(self) -> bool {
        true
    }

    open spec fn asks(s: Stat) -> RequestView {
        RequestView::Get(KeyView::Entry(s.ino), Shape::Placed)
    }

    open spec fn after(s: Stat, reply: Reply) -> StepView<Stat, Option<FileAttr>> {
        match lenient_info(reply) {
            Some(info) => if info.is_file != s.as_dir {
                StepView::Done(
                    Ok(
                        Some(
                            if info.is_file {
                                file_attr(file_meta(s.ino, info))
                            } else {
                                dir_attr(access_meta(s.ino, info))
                            },
                        ),
                    ),
                )
            } else if s.as_dir {
                StepView::Done(Ok(None))
            } else if s.ino == 1 {
                StepView::Done(Ok(Some(dir_attr(root_access_meta(s.now)))))
            } else {
                StepView::Next(Stat { as_dir: true, ..s })
            },
            None => if s.as_dir {
                StepView::Done(Ok(None))
            } else if s.ino == 1 {
                StepView::Done(Ok(Some(dir_attr(root_access_meta(s.now)))))
            } else {
                StepView::Next(Stat { as_dir: true, ..s })
            },
        }
    }

    fn request(&self) -> (r: Request) {
        Request::Get(Key::Entry(self.ino), Shape::Placed)
    }

    fn resume(self, reply: Reply) -> (r: Step<Self, Option<FileAttr>>) {
        if !self.as_dir {
            match get_file_meta(self.ino, &reply) {
                Some(m) => Step::Done(Ok(Some(attr_of_file(&m)))),
                None => if self.ino == 1 {
                    match get_access_meta(self.ino, self.now, &reply) {
                        Some(m) => Step::Done(Ok(Some(attr_of_dir(&m)))),
                        None => Step::Done(Ok(None)),
                    }
                } else {
                    Step::Next(Stat { ino: self.ino, now: self.now, as_dir: true })
                },
            }
        } else {
            match info_of(&reply) {
                Some(info) => if info.is_file {
                    Step::Done(Ok(None))
                } else {
                    let m = AccessMetaModel {
                        inode: self.ino,
                        permission: info.permission,
                        access_time: info.access_time,
                        modify_time: info.modify_time,
                        create_time: info.create_time,
                        nlink: info.nlink as i32,
                    };
                    Step::Done(Ok(Some(attr_of_dir(&m))))
                },
                None => Step::Done(Ok(None)),
            }
        }
    }
}

/// Update of the size of a file.
pub struct SetFileSize {
    pub ino: i64,
    pub size: u64,
    pub now: i64,
    pub entry: Option<EtcdPlacedEntry>,
}

impl Operation for SetFileSize {
    type State = SetFileSize;

    type Output = ();

    type Shown = ();

    open spec fn state(self) -> SetFileSize {
        self
    }

    open spec fn shown(out: ()) -> () {
        out
    }

    open spec fn ready(self) -> bool {
        true
    }

    open spec fn asks(s: SetFileSize) -> RequestView {
        match s.entry {
            None => RequestView::Get(KeyView::Entry(s.ino), Shape::Placed),
            Some(e) => RequestView::Put(
                KeyView::Entry(s.ino),
                Meaning::Placed {
                    info: EtcdEntryInfo {
                        size: Some(s.size as i64),
                        modify_time: s.now,
                        ..e.info
                    },
                    parent: e.parent_inode,
                    name: e.entry_name@,
                },
            ),
        }
    }

    open spec fn after(s: SetFileSize, reply: Reply) -> StepView<SetFileSize, ()> {
        match s.entry {
            None => match reply {
                Reply::Value(Some((Value::Placed(e), _))) => if e.info.is_file {
                    StepView::Next(SetFileSize { entry: Some(e), ..s })
                } else {
                    StepView::Done(Err(ErrorView::Internal("Cannot set size for directory"@)))
                },
                Reply::Value(_) => StepView::Done(Err(ErrorView::NotFound(s.ino))),
                _ => StepView::Done(Err(read_failure(KeyView::Entry(s.ino).text(), reply))),
            },
            Some(_) => match reply {
                Reply::Done => StepView::Done(Ok(())),
                Reply::Malformed(_) => StepView::Done(
                    Err(internal("Failed to serialize entry info: "@, reply)),
                ),
                _ => StepView::Done(
                    Err(internal("Failed to update file size in Etcd: "@, reply)),
                ),
            },
        }
    }

    fn request(&self) -> (r: Request) {
        match &self.entry {
            None => Request::Get(Key::Entry(self.ino), Shape::Placed),
            Some(e) => Request::Put(
                Key::Entry(self.ino),
                Value::Placed(
                    EtcdPlacedEntry {
                        info: EtcdEntryInfo {
                            size: Some(self.size as i64),
                            modify_time: self.now,
                            ..e.info
                        },
                        parent_inode: e.parent_inode,
                        entry_name: e.entry_name.clone(),
                    },
                ),
            ),
        }
    }

    fn resume(self, reply: Reply) -> (r: Step<Self, ()>) {
        match self.entry {
            None => match reply {
                Reply::Value(Some((Value::Placed(e), _))) => if e.info.is_file {
                    Step::Next(
                        SetFileSize { ino: self.ino, size: self.size, now: self.now, entry: Some(e) },
                    )
                } else {
                    Step::Done(
                        Err(MetaError::Internal(String::from_str("Cannot set size for directory"))),
                    )
                },
                Reply::Value(_) => Step::Done(Err(MetaError::NotFound(self.ino))),
                _ => Step::Done(Err(read_error(&Key::Entry(self.ino), reply))),
            },
            Some(_) => match reply {
                Reply::Done => Step::Done(Ok(())),
                Reply::Malformed(text) => Step::Done(
                    Err(
                        internal_error("Failed to serialize entry info: ", Reply::Malformed(text)),
                    ),
                ),
                _ => Step::Done(
                    Err(internal_error("Failed to update file size in Etcd: ", reply)),
                ),
            },
        }
    }
}

/// The parent of an inode that is not the root.
pub struct GetParent {
    pub ino: i64,
}

impl GetParent {
    /// The reading in its first state; the root has no parent.
    pub fn start(ino: i64) -> (r: Step<GetParent, Option<i64>>)
        ensures
            r == (if ino == 1 {
                Step::<GetParent, Option<i64>>::Done(Ok(None))
            } else {
                Step::<GetParent, Option<i64>>::Next(GetParent { ino })
            }),
    {
        if ino == 1 {
            Step::Done(Ok(None))
        } else {
            Step::Next(GetParent { ino })
        }
    }
}

impl Operation for GetParent {
    type State = GetParent;

    type Output = Option<i64>;

    type Shown = Option<i64>;

    open spec fn state(self) -> GetParent {
        self
    }

    open spec fn shown(out: Option<i64>) -> Option<i64> {
        out
    }

    open spec fn ready(self) -> bool {
        true
    }

    open spec fn asks(s: GetParent) -> RequestView {
        RequestView::Get(KeyView::Entry(s.ino), Shape::Placed)
    }

    open spec fn after(s: GetParent, reply: Reply) -> StepView<GetParent, Option<i64>> {
        match reply {
            Reply::Value(Some((Value::Placed(e), _))) => StepView::Done(Ok(Some(e.parent_inode))),
            Reply::Value(_) => StepView::Done(Ok(None)),
            _ => StepView::Done(Err(read_failure(KeyView::Entry(s.ino).text(), reply))),
        }
    }

    fn request(&self) -> (r: Request) {
        Request::Get(Key::Entry(self.ino), Shape::Placed)
    }

    fn resume(self, reply: Reply) -> (r: Step<Self, Option<i64>>) {
        match reply {
            Reply::Value(Some((Value::Placed(e), _))) => Step::Done(Ok(Some(e.parent_inode))),
            Reply::Value(_) => Step::Done(Ok(None)),
            _ => Step::Done(Err(read_error(&Key::Entry(self.ino), reply))),
        }
    }
}

/// The text of a result, if there is one.
pub open spec fn some_text(out: Option<String>) -> Option<Seq<char>> {
    match out {
        Some(text) => Some(text@),
        None => None,
    }
}

/// The name of an inode that is not the root.
pub struct GetName {
    pub ino: i64,
}

impl GetName {
    /// The reading in its first state; the root is named by a slash.
    pub fn start(ino: i64) -> (r: Step<GetName, Option<String>>)
        ensures
            ino == 1 ==> (r matches Step::Done(Ok(Some(name))) && name@ == "/"@),
            ino != 1 ==> r == Step::<GetName, Option<String>>::Next(GetName { ino }),
    {
        if ino == 1 {
            Step::Done(Ok(Some(String::from_str("/"))))
        } else {
            Step::Next(GetName { ino })
        }
    }
}

impl Operation for GetName {
    type State = GetName;

    type Output = Option<String>;

    type Shown = Option<Seq<char>>;

    open spec fn state(self) -> GetName {
        self
    }

    open spec fn shown(out: Option<String>) -> Option<Seq<char>> {
        some_text(out)
    }

    open spec fn ready(self) -> bool {
        true
    }

    open spec fn asks(s: GetName) -> RequestView {
        RequestView::Get(KeyView::Entry(s.ino), Shape::Placed)
    }

    open spec fn after(s: GetName, reply: Reply) -> StepView<GetName, Option<Seq<char>>> {
        match reply {
            Reply::Value(Some((Value::Placed(e), _))) => StepView::Done(Ok(Some(e.entry_name@))),
            Reply::Value(_) => StepView::Done(Ok(None)),
            _ => StepView::Done(Err(read_failure(KeyView::Entry(s.ino).text(), reply))),
        }
    }

    fn request(&self) -> (r: Request) {
        Request::Get(Key::Entry(self.ino), Shape::Placed)
    }

    fn resume(self, reply: Reply) -> (r: Step<Self, Option<String>>) {
        match reply {
            Reply::Value(Some((Value::Placed(e), _))) => Step::Done(Ok(Some(e.entry_name))),
            Reply::Value(_) => Step::Done(Ok(None)),
            _ => Step::Done(Err(read_error(&Key::Entry(self.ino), reply))),
        }
    }
}

/// The path that names make, the innermost first: each after a slash, the
/// outermost at the beginning.
pub open spec fn path_from(names: Seq<String>) -> Seq<char>
    decreases names.len(),
{
    if names.len() == 0 {
        Seq::empty()
    } else {
        path_from(names.skip(1)) + "/"@ + names[0]@
    }
}

/// The path that names make, the innermost first.
fn make_path(names: &Vec<String>) -> (r: String)
    ensures
        r@ == path_from(names@),
{
    let mut r = String::new();
    let mut i: usize = names.len();
    assert(names@.skip(i as int) =~= Seq::empty());
    while i > 0
        invariant
            i <= names.len(),
            r@ == path_from(names@.skip(i as int)),
        decreases i,
    {
        i = i - 1;
        assert(names@.skip(i as int).skip(1) =~= names@.skip(i + 1));
        r.append("/");
        r.append(names[i].as_str());
    }
    assert(names@.skip(0) =~= names@);
    r
}

/// The path of an inode that is not the root.
pub struct GetPath {
    pub current: i64,
    pub names: Vec<String>,
}

impl GetPath {
    /// The walk in its first state; the path of the root is a slash.
    pub fn start(ino: i64) -> (r: Step<GetPath, Option<String>>)
        ensures
            ino == 1 ==> (r matches Step::Done(Ok(Some(path))) && path@ == "/"@),
            ino != 1 ==> (r matches Step::Next(s) && s.state() == (GetPathState {
                current: ino,
                names: Seq::empty(),
            })),
    {
        if ino == 1 {
            Step::Done(Ok(Some(String::from_str("/"))))
        } else {
            Step::Next(GetPath { current: ino, names: Vec::new() })
        }
    }
}

/// The state of the walk to the root.
pub struct GetPathState {
    pub current: i64,
    pub names: Seq<String>,
}

impl Operation for GetPath {
    type State = GetPathState;

    type Output = Option<String>;

    type Shown = Option<Seq<char>>;

    open spec fn state(self) -> GetPathState {
        GetPathState { current: self.current, names: self.names@ }
    }

    open spec fn shown(out: Option<String>) -> Option<Seq<char>> {
        some_text(out)
    }

    open spec fn ready(self) -> bool {
        true
    }

    open spec fn asks(s: GetPathState) -> RequestView {
        RequestView::Get(KeyView::Entry(s.current), Shape::Placed)
    }

    open spec fn after(s: GetPathState, reply: Reply) -> StepView<GetPathState, Option<Seq<char>>> {
        match reply {
            Reply::Value(Some((Value::Placed(e), _))) => if e.parent_inode == 1 {
                StepView::Done(Ok(Some(path_from(s.names.push(e.entry_name)))))
            } else {
                StepView::Next(
                    GetPathState { current: e.parent_inode, names: s.names.push(e.entry_name) },
                )
            },
            Reply::Value(_) => StepView::Done(Ok(None)),
            _ => StepView::Done(Err(read_failure(KeyView::Entry(s.current).text(), reply))),
        }
    }

    fn request(&self) -> (r: Request) {
        Request::Get(Key::Entry(self.current), Shape::Placed)
    }

    fn resume(self, reply: Reply) -> (r: Step<Self, Option<String>>) {
        let GetPath { current, names } = self;
        let mut names = names;
        match reply {
            Reply::Value(Some((Value::Placed(e), _))) => {
                names.push(e.entry_name);
                if e.parent_inode == 1 {
                    Step::Done(Ok(Some(make_path(&names))))
                } else {
                    Step::Next(GetPath { current: e.parent_inode, names })
                }
            },
            Reply::Value(_) => Step::Done(Ok(None)),
            _ => Step::Done(Err(read_error(&Key::Entry(current), reply))),
        }
    }
}

/// The entries of a directory that are found under its names; a failed read
/// counts as nothing found.
pub struct ContentMeta {
    pub parent: i64,
    pub phase: ContentPhase,
}

/// How far the reading of the entries has come.
pub enum ContentPhase {
    /// The names are read.
    Names,
    /// The names before `at` have been looked up; those that were found are in `found`.
    Entries { names: Vec<String>, at: usize, found: Vec<ContentMetaModel> },
}

/// The state of the reading of the entries.
pub enum ContentState {
    Names { parent: i64 },
    Entries { parent: i64, names: Seq<String>, at: int, found: Seq<ContentMetaModel> },
}

/// What the reading of the entries ends with: nothing where none was found.
pub open spec fn contents_end(found: Seq<ContentMetaModel>) -> Option<Seq<ContentMetaModel>> {
    if found.len() == 0 {
        None
    } else {
        Some(found)
    }
}

/// The reading goes on with the next name, or ends.
pub open spec fn reading(
    parent: i64,
    names: Seq<String>,
    at: int,
    found: Seq<ContentMetaModel>,
) -> StepView<ContentState, Option<Seq<ContentMetaModel>>> {
    if at < names.len() {
        StepView::Next(ContentState::Entries { parent, names, at, found })
    } else {
        StepView::Done(Ok(contents_end(found)))
    }
}

impl Operation for ContentMeta {
    type State = ContentState;

    type Output = Option<Vec<ContentMetaModel>>;

    type Shown = Option<Seq<ContentMetaModel>>;

    open spec fn state(self) -> ContentState {
        match self.phase {
            ContentPhase::Names => ContentState::Names { parent: self.parent },
            ContentPhase::Entries { names, at, found } => ContentState::Entries {
                parent: self.parent,
                names: names@,
                at: at as int,
                found: found@,
            },
        }
    }

    open spec fn shown(out: Option<Vec<ContentMetaModel>>) -> Option<Seq<ContentMetaModel>> {
        match out {
            Some(list) => Some(list@),
            None => None,
        }
    }

    open spec fn ready(self) -> bool {
        true
    }

    open spec fn asks(s: ContentState) -> RequestView {
        match s {
            ContentState::Names { parent } => RequestView::Get(
                KeyView::Children(parent),
                Shape::Children,
            ),
            ContentState::Entries { parent, names, at, found } => RequestView::Get(
                KeyView::Forward(
                    parent,
                    if 0 <= at < names.len() {
                        names[at]@
                    } else {
                        Seq::empty()
                    },
                ),
                Shape::Forward,
            ),
        }
    }

    open spec fn after(s: ContentState, reply: Reply) -> StepView<
        ContentState,
        Option<Seq<ContentMetaModel>>,
    > {
        match s {
            ContentState::Names { parent } => match reply {
                Reply::Value(Some((Value::Children(c), _))) => reading(
                    parent,
                    c.children@,
                    0,
                    Seq::empty(),
                ),
                _ => StepView::Done(Ok(None)),
            },
            ContentState::Entries { parent, names, at, found } => if !(0 <= at < names.len()) {
                StepView::Done(Ok(contents_end(found)))
            } else {
                match reply {
                    Reply::Value(Some((Value::Forward(e), _))) => reading(
                        parent,
                        names,
                        at + 1,
                        found.push(
                            ContentMetaModel {
                                inode: e.inode,
                                parent_inode: parent,
                                entry_name: names[at],
                                entry_type: if e.is_file {
                                    EntryType::File
                                } else {
                                    EntryType::Directory
                                },
                            },
                        ),
                    ),
                    _ => reading(parent, names, at + 1, found),
                }
            },
        }
    }

    fn request(&self) -> (r: Request) {
        match &self.phase {
            ContentPhase::Names => Request::Get(Key::Children(self.parent), Shape::Children),
            ContentPhase::Entries { names, at, .. } => {
                let name = if *at < names.len() {
                    names[*at].clone()
                } else {
                    String::new()
                };
                Request::Get(Key::Forward { parent: self.parent, name }, Shape::Forward)
            },
        }
    }

    fn resume(self, reply: Reply) -> (r: Step<Self, Option<Vec<ContentMetaModel>>>) {
        let ContentMeta { parent, phase } = self;
        match phase {
            ContentPhase::Names => match reply {
                Reply::Value(Some((Value::Children(c), _))) => {
                    if c.children.len() == 0 {
                        Step::Done(Ok(None))
                    } else {
                        Step::Next(
                            ContentMeta {
                                parent,
                                phase: ContentPhase::Entries {
                                    names: c.children,
                                    at: 0,
                                    found: Vec::new(),
                                },
                            },
                        )
                    }
                },
                _ => Step::Done(Ok(None)),
            },
            ContentPhase::Entries { names, at, found } => {
                let mut found = found;
                if at < names.len() {
                    if let Reply::Value(Some((Value::Forward(e), _))) = reply {
                        found.push(
                            ContentMetaModel {
                                inode: e.inode,
                                parent_inode: parent,
                                entry_name: names[at].clone(),
                                entry_type: if e.is_file {
                                    EntryType::File
                                } else {
                                    EntryType::Directory
                                },
                            },
                        );
                    }
                    if at + 1 < names.len() {
                        return Step::Next(
                            ContentMeta {
                                parent,
                                phase: ContentPhase::Entries { names, at: at + 1, found },
                            },
                        );
                    }
                }
                if found.len() == 0 {
                    Step::Done(Ok(None))
                } else {
                    Step::Done(Ok(Some(found)))
                }
            },
        }
    }
}

/// The first entry of a name.
pub open spec fn find_content(contents: Seq<ContentMetaModel>, name: Seq<char>) -> Option<
    ContentMetaModel,
>
    decreases contents.len(),
{
    if contents.len() == 0 {
        None
    } else if contents[0].entry_name@ == name {
        Some(contents[0])
    } else {
        find_content(contents.skip(1), name)
    }
}

/// The first entry of a name: its inode and its type.
pub fn find_entry(contents: &Vec<ContentMetaModel>, name: &String) -> (r: Option<(i64, EntryType)>)
    ensures
        r == (match find_content(contents@, name@) {
            Some(c) => Some((c.inode, c.entry_type)),
            None => None,
        }),
{
    let mut i: usize = 0;
    assert(contents@.skip(0) =~= contents@);
    while i < contents.len()
        invariant
            i <= contents.len(),
            find_content(contents@.skip(i as int), name@) == find_content(contents@, name@),
        decreases contents.len() - i,
    {
        assert(contents@.skip(i as int).skip(1) =~= contents@.skip(i + 1));
        if contents[i].entry_name == *name {
            return Some((contents[i].inode, contents[i].entry_type));
        }
        i = i + 1;
    }
    None
}

/// What a name in a directory stands for, given the entries of the directory.
pub fn lookup(contents: &Option<Vec<ContentMetaModel>>, name: &String) -> (r: Option<i64>)
    ensures
        r == (match contents {
            Some(list) => match find_content(list@, name@) {
                Some(c) => Some(c.inode),
                None => None,
            },
            None => None,
        }),
{
    match contents {
        Some(list) => match find_entry(list, name) {
            Some((ino, _)) => Some(ino),
            None => None,
        },
        None => None,
    }
}

/// The entry that a row stands for.
pub open spec fn dir_entry(c: ContentMetaModel) -> DirEntry {
    DirEntry {
        name: c.entry_name,
        ino: c.inode,
        kind: match c.entry_type {
            EntryType::File => FileType::File,
            EntryType::Directory => FileType::Dir,
        },
    }
}

/// The entries that rows stand for.
pub open spec fn dir_entries(contents: Seq<ContentMetaModel>) -> Seq<DirEntry> {
    Seq::new(contents.len(), |i: int| dir_entry(contents[i]))
}

/// The entries that rows stand for.
pub fn entries_of(contents: &Vec<ContentMetaModel>) -> (r: Vec<DirEntry>)
    ensures
        r@ == dir_entries(contents@),
        r@.len() == contents@.len(),
        forall|i: int|
            0 <= i < contents@.len() ==> (#[trigger] r@[i]).name == contents@[i].entry_name
                && r@[i].ino == contents@[i].inode && (r@[i].kind is Dir
                <==> contents@[i].entry_type is Directory),
{
    let mut r: Vec<DirEntry> = Vec::new();
    let mut i: usize = 0;
    while i < contents.len()
        invariant
            i <= contents.len(),
            r@ == dir_entries(contents@.take(i as int)),
        decreases contents.len() - i,
    {
        let c = &contents[i];
        r.push(
            DirEntry {
                name: c.entry_name.clone(),
                ino: c.inode,
                kind: match c.entry_type {
                    EntryType::File => FileType::File,
                    EntryType::Directory => FileType::Dir,
                },
            },
        );
        i = i + 1;
        assert(r@ =~= dir_entries(contents@.take(i as int)));
    }
    assert(contents@.take(i as int) =~= contents@);
    r
}

/// The listing of a directory, given its metadata and its entries.
pub fn readdir(
    ino: i64,
    meta: &Option<AccessMetaModel>,
    contents: &Option<Vec<ContentMetaModel>>,
) -> (r: Result<Vec<DirEntry>, MetaError>)
    ensures
        match meta {
            None => r matches Err(e) && e@ == ErrorView::NotFound(ino),
            Some(m) => if !m.permission.spec_is_directory() {
                r matches Err(e) && e@ == ErrorView::NotDirectory(ino)
            } else {
                r matches Ok(list) && list@ == (match contents {
                    Some(c) => dir_entries(c@),
                    None => Seq::empty(),
                })
            },
        },
{
    match meta {
        None => Err(MetaError::NotFound(ino)),
        Some(m) => {
            if !m.permission.is_directory() {
                return Err(MetaError::NotDirectory(ino));
            }
            match contents {
                Some(c) => Ok(entries_of(c)),
                None => Ok(Vec::new()),
            }
        },
    }
}

/// The walk of a path from the root.
pub struct LookupPath {
    pub parts: Vec<String>,
    pub at: usize,
    pub reading: ContentMeta,
}

/// The state of a walk.
pub struct LookupPathState {
    pub parts: Seq<String>,
    pub at: int,
    pub reading: ContentState,
}

/// What a walk does with the entries of the directory that it has come to.
pub open spec fn walked(
    parts: Seq<String>,
    at: int,
    contents: Option<Seq<ContentMetaModel>>,
) -> StepView<LookupPathState, Option<(i64, FileType)>> {
    let found = match contents {
        Some(list) => if 0 <= at < parts.len() {
            find_content(list, parts[at]@)
        } else {
            None
        },
        None => None,
    };
    match found {
        None => StepView::Done(Ok(None)),
        Some(c) => match c.entry_type {
            EntryType::File => StepView::Done(
                Ok(
                    if at == parts.len() - 1 {
                        Some((c.inode, FileType::File))
                    } else {
                        None
                    },
                ),
            ),
            EntryType::Directory => if at == parts.len() - 1 {
                StepView::Done(Ok(Some((c.inode, FileType::Dir))))
            } else {
                StepView::Next(
                    LookupPathState {
                        parts,
                        at: at + 1,
                        reading: ContentState::Names { parent: c.inode },
                    },
                )
            },
        },
    }
}

impl LookupPath {
    /// The walk in its first state; a path without names is the root.
    pub fn start(path: &str) -> (r: Step<LookupPath, Option<(i64, FileType)>>)
        ensures
            components(path@).len() == 0 ==> r == Step::<LookupPath, Option<(i64, FileType)>>::Done(
                Ok(Some((1i64, FileType::Dir))),
            ),
            components(path@).len() > 0 ==> (r matches Step::Next(s) && texts(s.parts@)
                == components(path@) && s.at == 0 && s.reading.state() == (ContentState::Names {
                parent: 1,
            })),
    {
        let parts = path_components(path);
        assert(texts(parts@).len() == parts@.len());
        if parts.len() == 0 {
            Step::Done(Ok(Some((1, FileType::Dir))))
        } else {
            Step::Next(
                LookupPath {
                    parts,
                    at: 0,
                    reading: ContentMeta { parent: 1, phase: ContentPhase::Names },
                },
            )
        }
    }
}

impl Operation for LookupPath {
    type State = LookupPathState;

    type Output = Option<(i64, FileType)>;

    type Shown = Option<(i64, FileType)>;

    open spec fn state(self) -> LookupPathState {
        LookupPathState { parts: self.parts@, at: self.at as int, reading: self.reading.state() }
    }

    open spec fn shown(out: Option<(i64, FileType)>) -> Option<(i64, FileType)> {
        out
    }

    open spec fn ready(self) -> bool {
        true
    }

    open spec fn asks(s: LookupPathState) -> RequestView {
        ContentMeta::asks(s.reading)
    }

    open spec fn after(s: LookupPathState, reply: Reply) -> StepView<
        LookupPathState,
        Option<(i64, FileType)>,
    > {
        match ContentMeta::after(s.reading, reply) {
            StepView::Next(reading) => StepView::Next(LookupPathState { reading, ..s }),
            StepView::Done(Ok(contents)) => walked(s.parts, s.at, contents),
            StepView::Done(Err(e)) => StepView::Done(Err(e)),
        }
    }

    fn request(&self) -> (r: Request) {
        self.reading.request()
    }

    fn resume(self, reply: Reply) -> (r: Step<Self, Option<(i64, FileType)>>) {
        let LookupPath { parts, at, reading } = self;
        match reading.resume(reply) {
            Step::Next(reading) => Step::Next(LookupPath { parts, at, reading }),
            Step::Done(Err(e)) => Step::Done(Err(e)),
            Step::Done(Ok(contents)) => {
                let found = match &contents {
                    Some(list) => if at < parts.len() {
                        find_entry(list, &parts[at])
                    } else {
                        None
                    },
                    None => None,
                };
                match found {
                    None => Step::Done(Ok(None)),
                    Some((ino, EntryType::File)) => if at == parts.len() - 1 {
                        Step::Done(Ok(Some((ino, FileType::File))))
                    } else {
                        Step::Done(Ok(None))
                    },
                    Some((ino, EntryType::Directory)) => if at == parts.len() - 1 {
                        Step::Done(Ok(Some((ino, FileType::Dir))))
                    } else {
                        Step::Next(
                            LookupPath {
                                parts,
                                at: at + 1,
                                reading: ContentMeta { parent: ino, phase: ContentPhase::Names },
                            },
                        )
                    },
                }
            },
        }
    }
}

/// The entry of a name is the first with that name; there is none where no entry has it.
pub proof fn law_first_entry_of_a_name_counts(
    contents: Seq<ContentMetaModel>,
    name: Seq<char>,
    i: int,
)
    ensures
        0 <= i < contents.len() && contents[i].entry_name@ == name && (forall|j: int|
            0 <= j < i ==> (#[trigger] contents[j]).entry_name@ != name) ==> find_content(
            contents,
            name,
        ) == Some(contents[i]),
        find_content(contents, name) is None <==> forall|j: int|
            0 <= j < contents.len() ==> (#[trigger] contents[j]).entry_name@ != name,
    decreases contents.len(),
{
    if contents.len() > 0 && contents[0].entry_name@ != name {
        let rest = contents.skip(1);
        law_first_entry_of_a_name_counts(rest, name, i - 1);
        assert forall|j: int| 0 <= j < rest.len() implies rest[j] == #[trigger] contents[j + 1] by {
        }
        if forall|j: int| 0 <= j < rest.len() ==> (#[trigger] rest[j]).entry_name@ != name {
            assert forall|j: int| 0 <= j < contents.len() implies (
            #[trigger] contents[j]).entry_name@ != name by {
                if j > 0 {
                    assert(rest[j - 1].entry_name@ != name);
                }
            }
        }
        if forall|j: int| 0 <= j < contents.len() ==> (#[trigger] contents[j]).entry_name@ != name {
            assert forall|j: int| 0 <= j < rest.len() implies (
            #[trigger] rest[j]).entry_name@ != name by {
                assert(contents[j + 1].entry_name@ != name);
            }
        }
        if 0 < i < contents.len() && (forall|j: int|
            0 <= j < i ==> (#[trigger] contents[j]).entry_name@ != name) {
            assert(rest[i - 1] == contents[i]);
            assert forall|j: int| 0 <= j < i - 1 implies (
            #[trigger] rest[j]).entry_name@ != name by {
                assert(contents[j + 1].entry_name@ != name);
            }
        }
    }
}

/// The path of names, the innermost first, is read back as these names, the outermost first.
pub proof fn law_path_reads_back_as_its_names(names: Seq<String>)
    requires
        forall|i: int| 0 <= i < names.len() ==> crate::vfs::path::is_name((#[trigger] names[i])@),
    ensures
        components(path_from(names)).len() == names.len(),
        forall|i: int|
            0 <= i < names.len() ==> components(path_from(names))[names.len() - 1 - i] == (
            #[trigger] names[i])@,
    decreases names.len(),
{
    if names.len() == 0 {
        crate::vfs::path::law_slashes_part_names(Seq::empty(), seq!['a']);
    } else {
        let rest = names.skip(1);
        assert forall|i: int| 0 <= i < rest.len() implies crate::vfs::path::is_name(
            (#[trigger] rest[i])@,
        ) by {
            assert(crate::vfs::path::is_name(names[i + 1]@));
        }
        law_path_reads_back_as_its_names(rest);
        crate::vfs::path::law_slashes_part_names(path_from(rest), names[0]@);
        reveal_strlit("/");
        assert(path_from(names) =~= path_from(rest).push('/') + names[0]@);
        assert forall|i: int| 0 <= i < names.len() implies components(
            path_from(names),
        )[names.len() - 1 - i] == (#[trigger] names[i])@ by {
            if i > 0 {
                assert(rest[i - 1] == names[i]);
            }
        }
    }
}

} // verus!
