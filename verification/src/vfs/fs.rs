//! The operations of the file system by path and by inode.

use crate::meta::store::{DirEntry, FileAttr, FileType};
use crate::meta::types::{CreateParams, Inode, SetAttrMask};
use crate::text::same_text;
use crate::vfs::error::{VfsError, VfsErrorView};
use crate::vfs::op::{
    make_misled, misled, CreateView, FsOperation, FsReply, FsRequest, FsRequestView, FsStep,
    FsStepView,
};
use crate::vfs::path::{
    dir_and_name, law_normal_form, norm_path, normal, parse_path, split_dir_file,
};
use vstd::prelude::*;
use vstd::string::*;

verus! {

/// What the file system tells of a file or a directory.
#[derive(Debug, Clone, Copy)]
pub struct VFSFileAttr {
    pub ino: i64,
    pub size: u64,
    pub kind: FileType,
}

/// What the file system tells of an entry of a directory.
#[derive(Debug, Clone)]
pub struct VFSFileType {
    pub name: String,
    pub ino: i64,
    pub kind: FileType,
}

/// The part of the attributes that the file system tells.
pub fn stat_of(attr: &FileAttr) -> (r: VFSFileAttr)
    ensures
        r == (VFSFileAttr { ino: attr.ino, size: attr.size, kind: attr.kind }),
{
    VFSFileAttr { ino: attr.ino, size: attr.size, kind: attr.kind }
}

/// What the file system tells of entries.
pub open spec fn listed(entries: Seq<DirEntry>) -> Seq<VFSFileType> {
    Seq::new(
        entries.len(),
        |i: int| VFSFileType { name: entries[i].name, ino: entries[i].ino, kind: entries[i].kind },
    )
}

/// What the file system tells of entries.
pub fn readdir_ino(entries: &Vec<DirEntry>) -> (r: Vec<VFSFileType>)
    ensures
        r@ == listed(entries@),
        r@.len() == entries@.len(),
        forall|i: int|
            0 <= i < entries@.len() ==> (#[trigger] r@[i]).name@ == entries@[i].name@ && r@[i].ino
                == entries@[i].ino && r@[i].kind == entries@[i].kind,
{
    let mut r: Vec<VFSFileType> = Vec::new();
    let mut i: usize = 0;
    while i < entries.len()
        invariant
            i <= entries.len(),
            r@ == listed(entries@.take(i as int)),
        decreases entries.len() - i,
    {
        let e = &entries[i];
        r.push(VFSFileType { name: e.name.clone(), ino: e.ino, kind: e.kind });
        i = i + 1;
        assert(r@ =~= listed(entries@.take(i as int)));
    }
    assert(entries@.take(i as int) =~= entries@);
    r
}

/// Where the numbers of chunks begin.
pub const CHUNK_BASE: i64 = 1_000_000_000;

/// The number of a chunk of a file.
pub open spec fn chunk_number(ino: i64, index: u64) -> int {
    1_000_000_000 + ino * 1000 + index
}

/// The number of a chunk of a file. It has to fit.
pub fn chunk_id(ino: Inode, chunk_idx: u64) -> (r: i64)
    requires
        chunk_idx <= i64::MAX,
        i64::MIN <= ino.0 * 1000 <= i64::MAX,
        i64::MIN <= 1_000_000_000 + ino.0 * 1000 <= i64::MAX,
        chunk_number(ino.0, chunk_idx) <= i64::MAX,
    ensures
        r == chunk_number(ino.0, chunk_idx),
        r == 1_000_000_000 + 1000 * ino.0 + chunk_idx,
{
    CHUNK_BASE + ino.0 * 1000 + chunk_idx as i64
}

/// No two chunks have the same number, as long as a file has no more than a thousand.
pub proof fn law_chunk_numbers_are_distinct(ino: i64, index: u64, other: i64, other_index: u64)
    requires
        index < 1000,
        other_index < 1000,
        chunk_number(ino, index) == chunk_number(other, other_index),
    ensures
        ino == other,
        index == other_index,
{
}

/// How many bytes of a file there are to read from an offset on.
pub open spec fn readable(offset: u64, len: usize, size: u64) -> usize {
    if offset >= size {
        0
    } else if len <= (size - offset) as usize {
        len
    } else {
        (size - offset) as usize
    }
}

/// How many bytes of a file there are to read from an offset on.
fn readable_len(offset: u64, len: usize, size: u64) -> (r: usize)
    ensures
        r == readable(offset, len, size),
{
    if offset >= size {
        0
    } else {
        let rest: usize = (size - offset) as usize;
        if len <= rest {
            len
        } else {
            rest
        }
    }
}

/// The mask that sets a size.
pub open spec fn size_mask(size: u64) -> SetAttrMask {
    SetAttrMask { size: Some(size), ..SetAttrMask::nothing() }
}

/// The parameters of a file that is made by path.
pub open spec fn file_params(parent: Inode, name: Seq<char>) -> CreateView {
    CreateView { parent, name, kind: FileType::File, mode: 0o644, uid: 0, gid: 0 }
}

/// The creation of a file by path. Missing directories are made; a file that is there is
/// left as it is.
pub struct CreateFile {
    /// The path in normal form.
    pub path: String,
    /// The directory of the path.
    pub dir: String,
    /// The last name of the path.
    pub name: String,
    pub phase: CreateFilePhase,
}

/// How far the creation of a file has come.
pub enum CreateFilePhase {
    /// The directory is made.
    Dirs,
    /// The kind of the directory is looked at.
    Kind(Inode),
    /// The name is looked for.
    Child(Inode),
    /// What stands under the name is looked at.
    ChildKind(Inode, Inode),
    /// The file is made.
    Make(Inode),
}

impl CreateFile {
    /// Starts to create a file.
    pub fn start(path: &str) -> (r: CreateFile)
        ensures
            r.path@ == normal(path@),
            (r.dir@, r.name@) == dir_and_name(normal(path@)),
            r.phase == CreateFilePhase::Dirs,
    {
        let path = norm_path(path);
        proof {
            law_normal_form(path@);
        }
        let (dir, name) = split_dir_file(path.as_str());
        CreateFile { path, dir, name, phase: CreateFilePhase::Dirs }
    }
}

impl CreateFile {
    /// The state in another phase.
    pub open spec fn at(self, phase: CreateFilePhase) -> CreateFile {
        CreateFile { phase, ..self }
    }
}

impl FsOperation for CreateFile {
    type State = CreateFile;

    type Output = Inode;

    type Shown = Inode;

    open spec fn state(self) -> CreateFile {
        self
    }

    open spec fn shown(out: Inode) -> Inode {
        out
    }

    open spec fn ready(s: CreateFile) -> bool {
        true
    }

    open spec fn asks(s: CreateFile) -> FsRequestView {
        match s.phase {
            CreateFilePhase::Dirs => FsRequestView::MakeDirs(s.dir@),
            CreateFilePhase::Kind(at) => FsRequestView::Getattr(at),
            CreateFilePhase::Child(at) => FsRequestView::Lookup { parent: at, name: s.name@ },
            CreateFilePhase::ChildKind(_, child) => FsRequestView::Getattr(child),
            CreateFilePhase::Make(at) => FsRequestView::Create(file_params(at, s.name@)),
        }
    }

    open spec fn after(s: CreateFile, reply: FsReply) -> FsStepView<CreateFile, Inode> {
        match (s.phase, reply) {
            (CreateFilePhase::Dirs, FsReply::Path(Ok(dir))) => {
                FsStepView::Next(s.at(CreateFilePhase::Kind(dir)))
            },
            (CreateFilePhase::Dirs, FsReply::Path(Err(e))) => FsStepView::Done(Err(e@)),
            (CreateFilePhase::Kind(at), FsReply::Attr(Ok(attr))) => if attr.kind != FileType::Dir {
                FsStepView::Done(Err(VfsErrorView::NotDirectory(s.path@)))
            } else {
                FsStepView::Next(s.at(CreateFilePhase::Child(at)))
            },
            (CreateFilePhase::Kind(at), FsReply::Attr(Err(_))) => {
                FsStepView::Next(s.at(CreateFilePhase::Child(at)))
            },
            (CreateFilePhase::Child(at), FsReply::Child(Ok(child))) => {
                FsStepView::Next(s.at(CreateFilePhase::ChildKind(at, child)))
            },
            (CreateFilePhase::Child(at), FsReply::Child(Err(_))) => {
                FsStepView::Next(s.at(CreateFilePhase::Make(at)))
            },
            (CreateFilePhase::ChildKind(at, child), FsReply::Attr(Ok(attr))) => if attr.kind == FileType::Dir {
                FsStepView::Done(Err(VfsErrorView::NotFile(s.path@)))
            } else {
                FsStepView::Done(Ok(child))
            },
            (CreateFilePhase::ChildKind(at, _), FsReply::Attr(Err(_))) => {
                FsStepView::Next(s.at(CreateFilePhase::Make(at)))
            },
            (CreateFilePhase::Make(_), FsReply::Created(Ok(made))) => FsStepView::Done(Ok(made.0)),
            (CreateFilePhase::Make(_), FsReply::Created(Err(e))) => {
                FsStepView::Done(Err(VfsErrorView::Meta(e@)))
            },
            _ => FsStepView::Done(Err(misled())),
        }
    }

    fn request(&self) -> (r: FsRequest) {
        match &self.phase {
            CreateFilePhase::Dirs => FsRequest::MakeDirs(self.dir.clone()),
            CreateFilePhase::Kind(at) => FsRequest::Getattr(*at),
            CreateFilePhase::Child(at) => {
                FsRequest::Lookup { parent: *at, name: self.name.clone() }
            },
            CreateFilePhase::ChildKind(_, child) => FsRequest::Getattr(*child),
            CreateFilePhase::Make(at) => FsRequest::Create(
                CreateParams {
                    parent: *at,
                    name: self.name.clone(),
                    kind: FileType::File,
                    mode: 0o644,
                    uid: 0,
                    gid: 0,
                },
            ),
        }
    }

    fn resume(self, reply: FsReply) -> (r: FsStep<Self, Inode>) {
        let CreateFile { path, dir, name, phase } = self;
        let next = match (phase, reply) {
            (CreateFilePhase::Dirs, FsReply::Path(Ok(dir))) => CreateFilePhase::Kind(dir),
            (CreateFilePhase::Dirs, FsReply::Path(Err(e))) => return FsStep::Done(Err(e)),
            (CreateFilePhase::Kind(at), FsReply::Attr(Ok(attr))) => {
                if attr.kind != FileType::Dir {
                    return FsStep::Done(Err(VfsError::NotDirectory(path)));
                }
                CreateFilePhase::Child(at)
            },
            (CreateFilePhase::Kind(at), FsReply::Attr(Err(_))) => CreateFilePhase::Child(at),
            (CreateFilePhase::Child(at), FsReply::Child(Ok(child))) => {
                CreateFilePhase::ChildKind(at, child)
            },
            (CreateFilePhase::Child(at), FsReply::Child(Err(_))) => CreateFilePhase::Make(at),
            (CreateFilePhase::ChildKind(at, child), FsReply::Attr(Ok(attr))) => {
                if attr.kind == FileType::Dir {
                    return FsStep::Done(Err(VfsError::NotFile(path)));
                }
                return FsStep::Done(Ok(child));
            },
            (CreateFilePhase::ChildKind(at, _), FsReply::Attr(Err(_))) => CreateFilePhase::Make(at),
            (CreateFilePhase::Make(_), FsReply::Created(Ok(made))) => {
                return FsStep::Done(Ok(made.0))
            },
            (CreateFilePhase::Make(_), FsReply::Created(Err(e))) => {
                return FsStep::Done(Err(VfsError::Meta(e)))
            },
            _ => return FsStep::Done(Err(make_misled())),
        };
        FsStep::Next(CreateFile { path, dir, name, phase: next })
    }
}

/// The attributes of a path, if it leads to something.
pub struct Stat {
    /// The path in normal form.
    pub path: String,
    pub phase: StatPhase,
}

/// How far the reading of attributes has come.
pub enum StatPhase {
    Path,
    Attr(Inode),
}

impl Stat {
    /// Starts to read the attributes of a path.
    pub fn start(path: &str) -> (r: Stat)
        ensures
            r.path@ == normal(path@),
            r.phase == StatPhase::Path,
    {
        Stat { path: norm_path(path), phase: StatPhase::Path }
    }
}

impl Stat {
    /// The state in another phase.
    pub open spec fn at(self, phase: StatPhase) -> Stat {
        Stat { phase, ..self }
    }
}

impl FsOperation for Stat {
    type State = Stat;

    type Output = Option<FileAttr>;

    type Shown = Option<FileAttr>;

    open spec fn state(self) -> Stat {
        self
    }

    open spec fn shown(out: Option<FileAttr>) -> Option<FileAttr> {
        out
    }

    open spec fn ready(s: Stat) -> bool {
        true
    }

    open spec fn asks(s: Stat) -> FsRequestView {
        match s.phase {
            StatPhase::Path => FsRequestView::Resolve(s.path@),
            StatPhase::Attr(ino) => FsRequestView::Getattr(ino),
        }
    }

    open spec fn after(s: Stat, reply: FsReply) -> FsStepView<Stat, Option<FileAttr>> {
        match (s.phase, reply) {
            (StatPhase::Path, FsReply::Path(Ok(ino))) => {
                FsStepView::Next(s.at(StatPhase::Attr(ino)))
            },
            (StatPhase::Path, FsReply::Path(Err(_))) => FsStepView::Done(Ok(None)),
            (StatPhase::Attr(_), FsReply::Attr(Ok(attr))) => FsStepView::Done(Ok(Some(attr))),
            (StatPhase::Attr(_), FsReply::Attr(Err(_))) => FsStepView::Done(Ok(None)),
            _ => FsStepView::Done(Err(misled())),
        }
    }

    fn request(&self) -> (r: FsRequest) {
        match &self.phase {
            StatPhase::Path => FsRequest::Resolve(self.path.clone()),
            StatPhase::Attr(ino) => FsRequest::Getattr(*ino),
        }
    }

    fn resume(self, reply: FsReply) -> (r: FsStep<Self, Option<FileAttr>>) {
        let Stat { path, phase } = self;
        let next = match (phase, reply) {
            (StatPhase::Path, FsReply::Path(Ok(ino))) => StatPhase::Attr(ino),
            (StatPhase::Path, FsReply::Path(Err(_))) => return FsStep::Done(Ok(None)),
            (StatPhase::Attr(_), FsReply::Attr(Ok(attr))) => return FsStep::Done(Ok(Some(attr))),
            (StatPhase::Attr(_), FsReply::Attr(Err(_))) => return FsStep::Done(Ok(None)),
            _ => return FsStep::Done(Err(make_misled())),
        };
        FsStep::Next(Stat { path, phase: next })
    }
}

/// The listing of a directory by path.
pub struct List {
    /// The path in normal form.
    pub path: String,
    pub phase: ListPhase,
}

/// How far a listing has come.
pub enum ListPhase {
    Path,
    Kind(Inode),
    Entries(Inode),
}

impl List {
    /// Starts to list a directory.
    pub fn start(path: &str) -> (r: List)
        ensures
            r.path@ == normal(path@),
            r.phase == ListPhase::Path,
    {
        List { path: norm_path(path), phase: ListPhase::Path }
    }
}

impl List {
    /// The state in another phase.
    pub open spec fn at(self, phase: ListPhase) -> List {
        List { phase, ..self }
    }
}

impl FsOperation for List {
    type State = List;

    type Output = Vec<DirEntry>;

    type Shown = Seq<DirEntry>;

    open spec fn state(self) -> List {
        self
    }

    open spec fn shown(out: Vec<DirEntry>) -> Seq<DirEntry> {
        out@
    }

    open spec fn ready(s: List) -> bool {
        true
    }

    open spec fn asks(s: List) -> FsRequestView {
        match s.phase {
            ListPhase::Path => FsRequestView::Resolve(s.path@),
            ListPhase::Kind(ino) => FsRequestView::Getattr(ino),
            ListPhase::Entries(ino) => FsRequestView::Readdir(ino),
        }
    }

    open spec fn after(s: List, reply: FsReply) -> FsStepView<List, Seq<DirEntry>> {
        match (s.phase, reply) {
            (ListPhase::Path, FsReply::Path(Ok(ino))) => {
                FsStepView::Next(s.at(ListPhase::Kind(ino)))
            },
            (ListPhase::Path, FsReply::Path(Err(e))) => FsStepView::Done(Err(e@)),
            (ListPhase::Kind(ino), FsReply::Attr(Ok(attr))) => if attr.kind != FileType::Dir {
                FsStepView::Done(Err(VfsErrorView::NotDirectory(s.path@)))
            } else {
                FsStepView::Next(s.at(ListPhase::Entries(ino)))
            },
            (ListPhase::Kind(_), FsReply::Attr(Err(e))) => {
                FsStepView::Done(Err(VfsErrorView::Meta(e@)))
            },
            (ListPhase::Entries(_), FsReply::Entries(Ok(list))) => FsStepView::Done(Ok(list@)),
            (ListPhase::Entries(_), FsReply::Entries(Err(e))) => {
                FsStepView::Done(Err(VfsErrorView::Meta(e@)))
            },
            _ => FsStepView::Done(Err(misled())),
        }
    }

    fn request(&self) -> (r: FsRequest) {
        match &self.phase {
            ListPhase::Path => FsRequest::Resolve(self.path.clone()),
            ListPhase::Kind(ino) => FsRequest::Getattr(*ino),
            ListPhase::Entries(ino) => FsRequest::Readdir(*ino),
        }
    }

    fn resume(self, reply: FsReply) -> (r: FsStep<Self, Vec<DirEntry>>) {
        let List { path, phase } = self;
        let next = match (phase, reply) {
            (ListPhase::Path, FsReply::Path(Ok(ino))) => ListPhase::Kind(ino),
            (ListPhase::Path, FsReply::Path(Err(e))) => return FsStep::Done(Err(e)),
            (ListPhase::Kind(ino), FsReply::Attr(Ok(attr))) => {
                if attr.kind != FileType::Dir {
                    return FsStep::Done(Err(VfsError::NotDirectory(path)));
                }
                ListPhase::Entries(ino)
            },
            (ListPhase::Kind(_), FsReply::Attr(Err(e))) => {
                return FsStep::Done(Err(VfsError::Meta(e)))
            },
            (ListPhase::Entries(_), FsReply::Entries(Ok(list))) => return FsStep::Done(Ok(list)),
            (ListPhase::Entries(_), FsReply::Entries(Err(e))) => {
                return FsStep::Done(Err(VfsError::Meta(e)))
            },
            _ => return FsStep::Done(Err(make_misled())),
        };
        FsStep::Next(List { path, phase: next })
    }
}

/// Whether a path leads to something.
pub struct Exists {
    /// The path in normal form.
    pub path: String,
    pub phase: ExistsPhase,
}

/// The one step of the question.
pub enum ExistsPhase {
    Path,
}

impl Exists {
    /// Starts to ask for a path.
    pub fn start(path: &str) -> (r: Exists)
        ensures
            r.path@ == normal(path@),
            r.phase == ExistsPhase::Path,
    {
        Exists { path: norm_path(path), phase: ExistsPhase::Path }
    }
}

impl Exists {
    /// The state in another phase.
    pub open spec fn at(self, phase: ExistsPhase) -> Exists {
        Exists { phase, ..self }
    }
}

impl FsOperation for Exists {
    type State = Exists;

    type Output = bool;

    type Shown = bool;

    open spec fn state(self) -> Exists {
        self
    }

    open spec fn shown(out: bool) -> bool {
        out
    }

    open spec fn ready(s: Exists) -> bool {
        true
    }

    open spec fn asks(s: Exists) -> FsRequestView {
        match s.phase {
            ExistsPhase::Path => FsRequestView::Resolve(s.path@),
        }
    }

    open spec fn after(s: Exists, reply: FsReply) -> FsStepView<Exists, bool> {
        match (s.phase, reply) {
            (ExistsPhase::Path, FsReply::Path(Ok(_))) => FsStepView::Done(Ok(true)),
            (ExistsPhase::Path, FsReply::Path(Err(_))) => FsStepView::Done(Ok(false)),
            _ => FsStepView::Done(Err(misled())),
        }
    }

    fn request(&self) -> (r: FsRequest) {
        match &self.phase {
            ExistsPhase::Path => FsRequest::Resolve(self.path.clone()),
        }
    }

    fn resume(self, reply: FsReply) -> (r: FsStep<Self, bool>) {
        match (self.phase, reply) {
            (ExistsPhase::Path, FsReply::Path(Ok(_))) => FsStep::Done(Ok(true)),
            (ExistsPhase::Path, FsReply::Path(Err(_))) => FsStep::Done(Ok(false)),
            _ => FsStep::Done(Err(make_misled())),
        }
    }
}

/// The removal of a file by path.
pub struct UnlinkFile {
    /// The path in normal form.
    pub path: String,
    /// The directory of the path.
    pub dir: String,
    /// The last name of the path.
    pub name: String,
    pub phase: UnlinkFilePhase,
}

/// How far the removal has come.
pub enum UnlinkFilePhase {
    /// The directory of the path is looked for.
    Dir,
    /// The path is looked for.
    Path(Inode),
    /// What it leads to is looked at.
    Kind(Inode, Inode),
    /// The name is removed.
    Unlink(Inode),
}

impl UnlinkFile {
    /// Starts to remove a file. The root is none.
    pub fn start(path: &str) -> (r: Result<UnlinkFile, VfsError>)
        ensures
            if normal(path@) == seq!['/'] {
                r matches Err(e) && e@ == VfsErrorView::InvalidPath("Cannot parse root path"@)
            } else {
                r matches Ok(s) && s.path@ == normal(path@) && (s.dir@, s.name@) == dir_and_name(
                    normal(path@),
                ) && s.phase == UnlinkFilePhase::Dir
            },
    {
        proof {
            law_normal_form(path@);
        }
        let path = norm_path(path);
        match parse_path(path.as_str()) {
            Ok((dir, name)) => Ok(UnlinkFile { path, dir, name, phase: UnlinkFilePhase::Dir }),
            Err(e) => Err(e),
        }
    }
}

impl UnlinkFile {
    /// The state in another phase.
    pub open spec fn at(self, phase: UnlinkFilePhase) -> UnlinkFile {
        UnlinkFile { phase, ..self }
    }
}

impl FsOperation for UnlinkFile {
    type State = UnlinkFile;

    type Output = ();

    type Shown = ();

    open spec fn state(self) -> UnlinkFile {
        self
    }

    open spec fn shown(out: ()) -> () {
        out
    }

    open spec fn ready(s: UnlinkFile) -> bool {
        true
    }

    open spec fn asks(s: UnlinkFile) -> FsRequestView {
        match s.phase {
            UnlinkFilePhase::Dir => FsRequestView::Resolve(s.dir@),
            UnlinkFilePhase::Path(_) => FsRequestView::Resolve(s.path@),
            UnlinkFilePhase::Kind(_, ino) => FsRequestView::Getattr(ino),
            UnlinkFilePhase::Unlink(parent) => FsRequestView::Unlink { parent, name: s.name@ },
        }
    }

    open spec fn after(s: UnlinkFile, reply: FsReply) -> FsStepView<UnlinkFile, ()> {
        match (s.phase, reply) {
            (UnlinkFilePhase::Dir, FsReply::Path(Ok(parent))) => {
                FsStepView::Next(s.at(UnlinkFilePhase::Path(parent)))
            },
            (UnlinkFilePhase::Dir, FsReply::Path(Err(e))) => FsStepView::Done(Err(e@)),
            (UnlinkFilePhase::Path(parent), FsReply::Path(Ok(ino))) => {
                FsStepView::Next(s.at(UnlinkFilePhase::Kind(parent, ino)))
            },
            (UnlinkFilePhase::Path(_), FsReply::Path(Err(e))) => FsStepView::Done(Err(e@)),
            (UnlinkFilePhase::Kind(parent, _), FsReply::Attr(Ok(attr))) => if attr.kind != FileType::File {
                FsStepView::Done(Err(VfsErrorView::NotFile(s.path@)))
            } else {
                FsStepView::Next(s.at(UnlinkFilePhase::Unlink(parent)))
            },
            (UnlinkFilePhase::Kind(_, _), FsReply::Attr(Err(e))) => {
                FsStepView::Done(Err(VfsErrorView::Meta(e@)))
            },
            (UnlinkFilePhase::Unlink(_), FsReply::Done(Ok(_))) => FsStepView::Done(Ok(())),
            (UnlinkFilePhase::Unlink(_), FsReply::Done(Err(e))) => {
                FsStepView::Done(Err(VfsErrorView::Meta(e@)))
            },
            _ => FsStepView::Done(Err(misled())),
        }
    }

    fn request(&self) -> (r: FsRequest) {
        match &self.phase {
            UnlinkFilePhase::Dir => FsRequest::Resolve(self.dir.clone()),
            UnlinkFilePhase::Path(_) => FsRequest::Resolve(self.path.clone()),
            UnlinkFilePhase::Kind(_, ino) => FsRequest::Getattr(*ino),
            UnlinkFilePhase::Unlink(parent) => {
                FsRequest::Unlink { parent: *parent, name: self.name.clone() }
            },
        }
    }

    fn resume(self, reply: FsReply) -> (r: FsStep<Self, ()>) {
        let UnlinkFile { path, dir, name, phase } = self;
        let next = match (phase, reply) {
            (UnlinkFilePhase::Dir, FsReply::Path(Ok(parent))) => UnlinkFilePhase::Path(parent),
            (UnlinkFilePhase::Dir, FsReply::Path(Err(e))) => return FsStep::Done(Err(e)),
            (UnlinkFilePhase::Path(parent), FsReply::Path(Ok(ino))) => {
                UnlinkFilePhase::Kind(parent, ino)
            },
            (UnlinkFilePhase::Path(_), FsReply::Path(Err(e))) => return FsStep::Done(Err(e)),
            (UnlinkFilePhase::Kind(parent, _), FsReply::Attr(Ok(attr))) => {
                if attr.kind != FileType::File {
                    return FsStep::Done(Err(VfsError::NotFile(path)));
                }
                UnlinkFilePhase::Unlink(parent)
            },
            (UnlinkFilePhase::Kind(_, _), FsReply::Attr(Err(e))) => {
                return FsStep::Done(Err(VfsError::Meta(e)))
            },
            (UnlinkFilePhase::Unlink(_), FsReply::Done(Ok(_))) => return FsStep::Done(Ok(())),
            (UnlinkFilePhase::Unlink(_), FsReply::Done(Err(e))) => {
                return FsStep::Done(Err(VfsError::Meta(e)))
            },
            _ => return FsStep::Done(Err(make_misled())),
        };
        FsStep::Next(UnlinkFile { path, dir, name, phase: next })
    }
}

/// The removal of an empty directory by path.
pub struct RemoveDir {
    /// The path in normal form.
    pub path: String,
    /// The directory of the path.
    pub dir: String,
    /// The last name of the path.
    pub name: String,
    pub phase: RemoveDirPhase,
}

/// How far the removal has come.
pub enum RemoveDirPhase {
    /// The directory of the path is looked for.
    Dir,
    /// The path is looked for.
    Path(Inode),
    /// What it leads to is looked at.
    Kind(Inode, Inode),
    /// The entries are read.
    Entries(Inode, Inode),
    /// The name is removed.
    Rmdir(Inode),
}

impl RemoveDir {
    /// Starts to remove a directory. The root stays.
    pub fn start(path: &str) -> (r: Result<RemoveDir, VfsError>)
        ensures
            if normal(path@) == seq!['/'] {
                r matches Err(e) && e@ == VfsErrorView::Operation("cannot remove root"@)
            } else {
                r matches Ok(s) && s.path@ == normal(path@) && (s.dir@, s.name@) == dir_and_name(
                    normal(path@),
                ) && s.phase == RemoveDirPhase::Dir
            },
    {
        proof {
            law_normal_form(path@);
        }
        let path = norm_path(path);
        proof {
            reveal_strlit("/");
            assert("/"@ =~= seq!['/']);
        }
        if same_text(path.as_str(), "/") {
            return Err(VfsError::Operation(String::from_str("cannot remove root")));
        }
        match parse_path(path.as_str()) {
            Ok((dir, name)) => Ok(RemoveDir { path, dir, name, phase: RemoveDirPhase::Dir }),
            Err(e) => Err(e),
        }
    }
}

impl RemoveDir {
    /// The state in another phase.
    pub open spec fn at(self, phase: RemoveDirPhase) -> RemoveDir {
        RemoveDir { phase, ..self }
    }
}

impl FsOperation for RemoveDir {
    type State = RemoveDir;

    type Output = ();

    type Shown = ();

    open spec fn state(self) -> RemoveDir {
        self
    }

    open spec fn shown(out: ()) -> () {
        out
    }

    open spec fn ready(s: RemoveDir) -> bool {
        true
    }

    open spec fn asks(s: RemoveDir) -> FsRequestView {
        match s.phase {
            RemoveDirPhase::Dir => FsRequestView::Resolve(s.dir@),
            RemoveDirPhase::Path(_) => FsRequestView::Resolve(s.path@),
            RemoveDirPhase::Kind(_, ino) => FsRequestView::Getattr(ino),
            RemoveDirPhase::Entries(_, ino) => FsRequestView::Readdir(ino),
            RemoveDirPhase::Rmdir(parent) => FsRequestView::Rmdir { parent, name: s.name@ },
        }
    }

    open spec fn after(s: RemoveDir, reply: FsReply) -> FsStepView<RemoveDir, ()> {
        match (s.phase, reply) {
            (RemoveDirPhase::Dir, FsReply::Path(Ok(parent))) => {
                FsStepView::Next(s.at(RemoveDirPhase::Path(parent)))
            },
            (RemoveDirPhase::Dir, FsReply::Path(Err(e))) => FsStepView::Done(Err(e@)),
            (RemoveDirPhase::Path(parent), FsReply::Path(Ok(ino))) => {
                FsStepView::Next(s.at(RemoveDirPhase::Kind(parent, ino)))
            },
            (RemoveDirPhase::Path(_), FsReply::Path(Err(e))) => FsStepView::Done(Err(e@)),
            (RemoveDirPhase::Kind(parent, ino), FsReply::Attr(Ok(attr))) => if attr.kind != FileType::Dir {
                FsStepView::Done(Err(VfsErrorView::NotDirectory(s.path@)))
            } else {
                FsStepView::Next(s.at(RemoveDirPhase::Entries(parent, ino)))
            },
            (RemoveDirPhase::Kind(_, _), FsReply::Attr(Err(e))) => {
                FsStepView::Done(Err(VfsErrorView::Meta(e@)))
            },
            (RemoveDirPhase::Entries(parent, _), FsReply::Entries(Ok(list))) => if list@.len() > 0 {
                FsStepView::Done(Err(VfsErrorView::DirectoryNotEmpty(s.path@)))
            } else {
                FsStepView::Next(s.at(RemoveDirPhase::Rmdir(parent)))
            },
            (RemoveDirPhase::Entries(_, _), FsReply::Entries(Err(e))) => {
                FsStepView::Done(Err(VfsErrorView::Meta(e@)))
            },
            (RemoveDirPhase::Rmdir(_), FsReply::Done(Ok(_))) => FsStepView::Done(Ok(())),
            (RemoveDirPhase::Rmdir(_), FsReply::Done(Err(e))) => {
                FsStepView::Done(Err(VfsErrorView::Meta(e@)))
            },
            _ => FsStepView::Done(Err(misled())),
        }
    }

    fn request(&self) -> (r: FsRequest) {
        match &self.phase {
            RemoveDirPhase::Dir => FsRequest::Resolve(self.dir.clone()),
            RemoveDirPhase::Path(_) => FsRequest::Resolve(self.path.clone()),
            RemoveDirPhase::Kind(_, ino) => FsRequest::Getattr(*ino),
            RemoveDirPhase::Entries(_, ino) => FsRequest::Readdir(*ino),
            RemoveDirPhase::Rmdir(parent) => {
                FsRequest::Rmdir { parent: *parent, name: self.name.clone() }
            },
        }
    }

    fn resume(self, reply: FsReply) -> (r: FsStep<Self, ()>) {
        let RemoveDir { path, dir, name, phase } = self;
        let next = match (phase, reply) {
            (RemoveDirPhase::Dir, FsReply::Path(Ok(parent))) => RemoveDirPhase::Path(parent),
            (RemoveDirPhase::Dir, FsReply::Path(Err(e))) => return FsStep::Done(Err(e)),
            (RemoveDirPhase::Path(parent), FsReply::Path(Ok(ino))) => {
                RemoveDirPhase::Kind(parent, ino)
            },
            (RemoveDirPhase::Path(_), FsReply::Path(Err(e))) => return FsStep::Done(Err(e)),
            (RemoveDirPhase::Kind(parent, ino), FsReply::Attr(Ok(attr))) => {
                if attr.kind != FileType::Dir {
                    return FsStep::Done(Err(VfsError::NotDirectory(path)));
                }
                RemoveDirPhase::Entries(parent, ino)
            },
            (RemoveDirPhase::Kind(_, _), FsReply::Attr(Err(e))) => {
                return FsStep::Done(Err(VfsError::Meta(e)))
            },
            (RemoveDirPhase::Entries(parent, _), FsReply::Entries(Ok(list))) => {
                if list.len() > 0 {
                    return FsStep::Done(Err(VfsError::DirectoryNotEmpty(path)));
                }
                RemoveDirPhase::Rmdir(parent)
            },
            (RemoveDirPhase::Entries(_, _), FsReply::Entries(Err(e))) => {
                return FsStep::Done(Err(VfsError::Meta(e)))
            },
            (RemoveDirPhase::Rmdir(_), FsReply::Done(Ok(_))) => return FsStep::Done(Ok(())),
            (RemoveDirPhase::Rmdir(_), FsReply::Done(Err(e))) => {
                return FsStep::Done(Err(VfsError::Meta(e)))
            },
            _ => return FsStep::Done(Err(make_misled())),
        };
        FsStep::Next(RemoveDir { path, dir, name, phase: next })
    }
}

/// The move of a file by path. Nothing is replaced; missing directories are made.
pub struct RenameFile {
    /// The old path in normal form.
    pub old_path: String,
    /// Its directory.
    pub old_dir: String,
    /// Its last name.
    pub old_name: String,
    /// The new path in normal form.
    pub new_path: String,
    /// Its directory.
    pub new_dir: String,
    /// Its last name.
    pub new_name: String,
    pub phase: RenameFilePhase,
}

/// How far the move has come.
pub enum RenameFilePhase {
    /// The new path is looked for.
    Target,
    /// The old path is looked for.
    Source,
    /// What it leads to is looked at.
    Kind(Inode),
    /// The old directory is looked for.
    OldDir,
    /// The new directory is made.
    Dirs(Inode),
    /// The new directory is looked for.
    NewDir(Inode),
    /// The name is moved.
    Rename(Inode, Inode),
}

impl RenameFile {
    /// Starts to move a file.
    pub fn start(old: &str, new: &str) -> (r: RenameFile)
        ensures
            r.old_path@ == normal(old@),
            (r.old_dir@, r.old_name@) == dir_and_name(normal(old@)),
            r.new_path@ == normal(new@),
            (r.new_dir@, r.new_name@) == dir_and_name(normal(new@)),
            r.phase == RenameFilePhase::Target,
    {
        proof {
            law_normal_form(old@);
            law_normal_form(new@);
        }
        let old_path = norm_path(old);
        let new_path = norm_path(new);
        let (old_dir, old_name) = split_dir_file(old_path.as_str());
        let (new_dir, new_name) = split_dir_file(new_path.as_str());
        RenameFile {
            old_path,
            old_dir,
            old_name,
            new_path,
            new_dir,
            new_name,
            phase: RenameFilePhase::Target,
        }
    }
}

impl RenameFile {
    /// The state in another phase.
    pub open spec fn at(self, phase: RenameFilePhase) -> RenameFile {
        RenameFile { phase, ..self }
    }
}

impl FsOperation for RenameFile {
    type State = RenameFile;

    type Output = ();

    type Shown = ();

    open spec fn state(self) -> RenameFile {
        self
    }

    open spec fn shown(out: ()) -> () {
        out
    }

    open spec fn ready(s: RenameFile) -> bool {
        true
    }

    open spec fn asks(s: RenameFile) -> FsRequestView {
        match s.phase {
            RenameFilePhase::Target => FsRequestView::Resolve(s.new_path@),
            RenameFilePhase::Source => FsRequestView::Resolve(s.old_path@),
            RenameFilePhase::Kind(ino) => FsRequestView::Getattr(ino),
            RenameFilePhase::OldDir => FsRequestView::Resolve(s.old_dir@),
            RenameFilePhase::Dirs(_) => FsRequestView::MakeDirs(s.new_dir@),
            RenameFilePhase::NewDir(_) => FsRequestView::Resolve(s.new_dir@),
            RenameFilePhase::Rename(from, to) => FsRequestView::Rename {
                old_parent: from,
                old_name: s.old_name@,
                new_parent: to,
                new_name: s.new_name@,
            },
        }
    }

    open spec fn after(s: RenameFile, reply: FsReply) -> FsStepView<RenameFile, ()> {
        match (s.phase, reply) {
            (RenameFilePhase::Target, FsReply::Path(Ok(_))) => {
                FsStepView::Done(Err(VfsErrorView::AlreadyExists(s.new_path@)))
            },
            (RenameFilePhase::Target, FsReply::Path(Err(_))) => {
                FsStepView::Next(s.at(RenameFilePhase::Source))
            },
            (RenameFilePhase::Source, FsReply::Path(Ok(ino))) => {
                FsStepView::Next(s.at(RenameFilePhase::Kind(ino)))
            },
            (RenameFilePhase::Source, FsReply::Path(Err(e))) => FsStepView::Done(Err(e@)),
            (RenameFilePhase::Kind(_), FsReply::Attr(Ok(attr))) => if attr.kind != FileType::File {
                FsStepView::Done(Err(VfsErrorView::NotFile(s.old_path@)))
            } else {
                FsStepView::Next(s.at(RenameFilePhase::OldDir))
            },
            (RenameFilePhase::Kind(_), FsReply::Attr(Err(e))) => {
                FsStepView::Done(Err(VfsErrorView::Meta(e@)))
            },
            (RenameFilePhase::OldDir, FsReply::Path(Ok(from))) => {
                FsStepView::Next(s.at(RenameFilePhase::Dirs(from)))
            },
            (RenameFilePhase::OldDir, FsReply::Path(Err(e))) => FsStepView::Done(Err(e@)),
            (RenameFilePhase::Dirs(from), FsReply::Path(Ok(_))) => {
                FsStepView::Next(s.at(RenameFilePhase::NewDir(from)))
            },
            (RenameFilePhase::Dirs(_), FsReply::Path(Err(e))) => FsStepView::Done(Err(e@)),
            (RenameFilePhase::NewDir(from), FsReply::Path(Ok(to))) => {
                FsStepView::Next(s.at(RenameFilePhase::Rename(from, to)))
            },
            (RenameFilePhase::NewDir(_), FsReply::Path(Err(e))) => FsStepView::Done(Err(e@)),
            (RenameFilePhase::Rename(_, _), FsReply::Done(Ok(_))) => FsStepView::Done(Ok(())),
            (RenameFilePhase::Rename(_, _), FsReply::Done(Err(e))) => {
                FsStepView::Done(Err(VfsErrorView::Meta(e@)))
            },
            _ => FsStepView::Done(Err(misled())),
        }
    }

    fn request(&self) -> (r: FsRequest) {
        match &self.phase {
            RenameFilePhase::Target => FsRequest::Resolve(self.new_path.clone()),
            RenameFilePhase::Source => FsRequest::Resolve(self.old_path.clone()),
            RenameFilePhase::Kind(ino) => FsRequest::Getattr(*ino),
            RenameFilePhase::OldDir => FsRequest::Resolve(self.old_dir.clone()),
            RenameFilePhase::Dirs(_) => FsRequest::MakeDirs(self.new_dir.clone()),
            RenameFilePhase::NewDir(_) => FsRequest::Resolve(self.new_dir.clone()),
            RenameFilePhase::Rename(from, to) => FsRequest::Rename {
                old_parent: *from,
                old_name: self.old_name.clone(),
                new_parent: *to,
                new_name: self.new_name.clone(),
            },
        }
    }

    fn resume(self, reply: FsReply) -> (r: FsStep<Self, ()>) {
        let RenameFile { old_path, old_dir, old_name, new_path, new_dir, new_name, phase } = self;
        let next = match (phase, reply) {
            (RenameFilePhase::Target, FsReply::Path(Ok(_))) => {
                return FsStep::Done(Err(VfsError::AlreadyExists(new_path)))
            },
            (RenameFilePhase::Target, FsReply::Path(Err(_))) => RenameFilePhase::Source,
            (RenameFilePhase::Source, FsReply::Path(Ok(ino))) => RenameFilePhase::Kind(ino),
            (RenameFilePhase::Source, FsReply::Path(Err(e))) => return FsStep::Done(Err(e)),
            (RenameFilePhase::Kind(_), FsReply::Attr(Ok(attr))) => {
                if attr.kind != FileType::File {
                    return FsStep::Done(Err(VfsError::NotFile(old_path)));
                }
                RenameFilePhase::OldDir
            },
            (RenameFilePhase::Kind(_), FsReply::Attr(Err(e))) => {
                return FsStep::Done(Err(VfsError::Meta(e)))
            },
            (RenameFilePhase::OldDir, FsReply::Path(Ok(from))) => RenameFilePhase::Dirs(from),
            (RenameFilePhase::OldDir, FsReply::Path(Err(e))) => return FsStep::Done(Err(e)),
            (RenameFilePhase::Dirs(from), FsReply::Path(Ok(_))) => RenameFilePhase::NewDir(from),
            (RenameFilePhase::Dirs(_), FsReply::Path(Err(e))) => return FsStep::Done(Err(e)),
            (RenameFilePhase::NewDir(from), FsReply::Path(Ok(to))) => {
                RenameFilePhase::Rename(from, to)
            },
            (RenameFilePhase::NewDir(_), FsReply::Path(Err(e))) => return FsStep::Done(Err(e)),
            (RenameFilePhase::Rename(_, _), FsReply::Done(Ok(_))) => return FsStep::Done(Ok(())),
            (RenameFilePhase::Rename(_, _), FsReply::Done(Err(e))) => {
                return FsStep::Done(Err(VfsError::Meta(e)))
            },
            _ => return FsStep::Done(Err(make_misled())),
        };
        FsStep::Next(
            RenameFile { old_path, old_dir, old_name, new_path, new_dir, new_name, phase: next },
        )
    }
}

/// The setting of the size of a file by path.
pub struct Truncate {
    /// The path in normal form.
    pub path: String,
    pub size: u64,
    pub phase: TruncatePhase,
}

/// How far the setting of a size has come.
pub enum TruncatePhase {
    Path,
    Size(Inode),
}

impl Truncate {
    /// Starts to set the size of a file.
    pub fn start(path: &str, size: u64) -> (r: Truncate)
        ensures
            r.path@ == normal(path@),
            r.size == size,
            r.phase == TruncatePhase::Path,
    {
        Truncate { path: norm_path(path), size, phase: TruncatePhase::Path }
    }
}

impl Truncate {
    /// The state in another phase.
    pub open spec fn at(self, phase: TruncatePhase) -> Truncate {
        Truncate { phase, ..self }
    }
}

impl FsOperation for Truncate {
    type State = Truncate;

    type Output = ();

    type Shown = ();

    open spec fn state(self) -> Truncate {
        self
    }

    open spec fn shown(out: ()) -> () {
        out
    }

    open spec fn ready(s: Truncate) -> bool {
        true
    }

    open spec fn asks(s: Truncate) -> FsRequestView {
        match s.phase {
            TruncatePhase::Path => FsRequestView::Resolve(s.path@),
            TruncatePhase::Size(ino) => FsRequestView::Setattr(ino, size_mask(s.size)),
        }
    }

    open spec fn after(s: Truncate, reply: FsReply) -> FsStepView<Truncate, ()> {
        match (s.phase, reply) {
            (TruncatePhase::Path, FsReply::Path(Ok(ino))) => {
                FsStepView::Next(s.at(TruncatePhase::Size(ino)))
            },
            (TruncatePhase::Path, FsReply::Path(Err(e))) => FsStepView::Done(Err(e@)),
            (TruncatePhase::Size(_), FsReply::Attr(Ok(_))) => FsStepView::Done(Ok(())),
            (TruncatePhase::Size(_), FsReply::Attr(Err(e))) => {
                FsStepView::Done(Err(VfsErrorView::Meta(e@)))
            },
            _ => FsStepView::Done(Err(misled())),
        }
    }

    fn request(&self) -> (r: FsRequest) {
        match &self.phase {
            TruncatePhase::Path => FsRequest::Resolve(self.path.clone()),
            TruncatePhase::Size(ino) => FsRequest::Setattr(*ino, SetAttrMask::size(self.size)),
        }
    }

    fn resume(self, reply: FsReply) -> (r: FsStep<Self, ()>) {
        let Truncate { path, size, phase } = self;
        let next = match (phase, reply) {
            (TruncatePhase::Path, FsReply::Path(Ok(ino))) => TruncatePhase::Size(ino),
            (TruncatePhase::Path, FsReply::Path(Err(e))) => return FsStep::Done(Err(e)),
            (TruncatePhase::Size(_), FsReply::Attr(Ok(_))) => return FsStep::Done(Ok(())),
            (TruncatePhase::Size(_), FsReply::Attr(Err(e))) => {
                return FsStep::Done(Err(VfsError::Meta(e)))
            },
            _ => return FsStep::Done(Err(make_misled())),
        };
        FsStep::Next(Truncate { path, size, phase: next })
    }
}

/// A copy of bytes.
fn copied(data: &Vec<u8>) -> (r: Vec<u8>)
    ensures
        r@ == data@,
{
    let r = data.clone();
    assert(r@ =~= data@);
    r
}

/// The writing of bytes to a file by path. The file then ends where the bytes end; that
/// this could not be noted is no failure.
pub struct WriteFile {
    /// The path in normal form.
    pub path: String,
    pub offset: u64,
    pub data: Vec<u8>,
    pub phase: WriteFilePhase,
}

/// How far the writing has come.
pub enum WriteFilePhase {
    Path,
    Data(Inode),
    Size(Inode),
}

impl WriteFile {
    /// Starts to write bytes to a file.
    pub fn start(path: &str, offset: u64, data: Vec<u8>) -> (r: WriteFile)
        requires
            offset + data@.len() <= u64::MAX,
        ensures
            r.path@ == normal(path@),
            r.offset == offset,
            r.data == data,
            r.phase == WriteFilePhase::Path,
            WriteFile::ready(r),
    {
        WriteFile { path: norm_path(path), offset, data, phase: WriteFilePhase::Path }
    }
}

impl WriteFile {
    /// The state in another phase.
    pub open spec fn at(self, phase: WriteFilePhase) -> WriteFile {
        WriteFile { phase, ..self }
    }
}

impl FsOperation for WriteFile {
    type State = WriteFile;

    type Output = usize;

    type Shown = usize;

    open spec fn state(self) -> WriteFile {
        self
    }

    open spec fn shown(out: usize) -> usize {
        out
    }

    open spec fn ready(s: WriteFile) -> bool {
        s.offset + s.data@.len() <= u64::MAX
    }

    open spec fn asks(s: WriteFile) -> FsRequestView {
        match s.phase {
            WriteFilePhase::Path => FsRequestView::Resolve(s.path@),
            WriteFilePhase::Data(ino) => {
                FsRequestView::WriteData { ino, offset: s.offset, data: s.data@ }
            },
            WriteFilePhase::Size(ino) => {
                FsRequestView::Setattr(ino, size_mask((s.offset + s.data@.len()) as u64))
            },
        }
    }

    open spec fn after(s: WriteFile, reply: FsReply) -> FsStepView<WriteFile, usize> {
        match (s.phase, reply) {
            (WriteFilePhase::Path, FsReply::Path(Ok(ino))) => {
                FsStepView::Next(s.at(WriteFilePhase::Data(ino)))
            },
            (WriteFilePhase::Path, FsReply::Path(Err(e))) => FsStepView::Done(Err(e@)),
            (WriteFilePhase::Data(ino), FsReply::Written(_)) => {
                FsStepView::Next(s.at(WriteFilePhase::Size(ino)))
            },
            (WriteFilePhase::Size(_), FsReply::Attr(_)) => FsStepView::Done(Ok(s.data@.len() as usize)),
            _ => FsStepView::Done(Err(misled())),
        }
    }

    fn request(&self) -> (r: FsRequest) {
        match &self.phase {
            WriteFilePhase::Path => FsRequest::Resolve(self.path.clone()),
            WriteFilePhase::Data(ino) => {
                FsRequest::WriteData { ino: *ino, offset: self.offset, data: copied(&self.data) }
            },
            WriteFilePhase::Size(ino) => {
                FsRequest::Setattr(*ino, SetAttrMask::size(self.offset + self.data.len() as u64))
            },
        }
    }

    fn resume(self, reply: FsReply) -> (r: FsStep<Self, usize>) {
        let WriteFile { path, offset, data, phase } = self;
        let next = match (phase, reply) {
            (WriteFilePhase::Path, FsReply::Path(Ok(ino))) => WriteFilePhase::Data(ino),
            (WriteFilePhase::Path, FsReply::Path(Err(e))) => return FsStep::Done(Err(e)),
            (WriteFilePhase::Data(ino), FsReply::Written(_)) => WriteFilePhase::Size(ino),
            (WriteFilePhase::Size(_), FsReply::Attr(_)) => return FsStep::Done(Ok(data.len())),
            _ => return FsStep::Done(Err(make_misled())),
        };
        FsStep::Next(WriteFile { path, offset, data, phase: next })
    }
}

/// The writing of bytes to an inode. The file grows where the bytes end after it.
pub struct WriteInode {
    pub ino: Inode,
    pub offset: u64,
    pub data: Vec<u8>,
    pub phase: WriteInodePhase,
}

/// How far the writing has come. Once the bytes are written, their number is kept.
pub enum WriteInodePhase {
    Data,
    Size(usize),
    Grow(usize),
}

impl WriteInode {
    /// Starts to write bytes to an inode.
    pub fn start(ino: Inode, offset: u64, data: Vec<u8>) -> (r: WriteInode)
        requires
            offset + data@.len() <= u64::MAX,
        ensures
            r == (WriteInode { ino, offset, data, phase: WriteInodePhase::Data }),
            WriteInode::ready(r),
    {
        WriteInode { ino, offset, data, phase: WriteInodePhase::Data }
    }
}

impl WriteInode {
    /// The state in another phase.
    pub open spec fn at(self, phase: WriteInodePhase) -> WriteInode {
        WriteInode { phase, ..self }
    }
}

impl FsOperation for WriteInode {
    type State = WriteInode;

    type Output = usize;

    type Shown = usize;

    open spec fn state(self) -> WriteInode {
        self
    }

    open spec fn shown(out: usize) -> usize {
        out
    }

    open spec fn ready(s: WriteInode) -> bool {
        s.offset + s.data@.len() <= u64::MAX && match s.phase {
            WriteInodePhase::Data => true,
            WriteInodePhase::Size(n) => n <= s.data@.len(),
            WriteInodePhase::Grow(n) => n <= s.data@.len(),
        }
    }

    open spec fn asks(s: WriteInode) -> FsRequestView {
        match s.phase {
            WriteInodePhase::Data => {
                FsRequestView::WriteData { ino: s.ino, offset: s.offset, data: s.data@ }
            },
            WriteInodePhase::Size(_) => FsRequestView::Getattr(s.ino),
            WriteInodePhase::Grow(n) => {
                FsRequestView::Setattr(s.ino, size_mask((s.offset + n) as u64))
            },
        }
    }

    open spec fn after(s: WriteInode, reply: FsReply) -> FsStepView<WriteInode, usize> {
        match (s.phase, reply) {
            (WriteInodePhase::Data, FsReply::Written(n)) => {
                FsStepView::Next(s.at(WriteInodePhase::Size(n)))
            },
            (WriteInodePhase::Size(n), FsReply::Attr(Ok(attr))) => if s.offset + n > attr.size {
                FsStepView::Next(s.at(WriteInodePhase::Grow(n)))
            } else {
                FsStepView::Done(Ok(n))
            },
            (WriteInodePhase::Size(_), FsReply::Attr(Err(e))) => {
                FsStepView::Done(Err(VfsErrorView::Meta(e@)))
            },
            (WriteInodePhase::Grow(n), FsReply::Attr(Ok(_))) => FsStepView::Done(Ok(n)),
            (WriteInodePhase::Grow(_), FsReply::Attr(Err(e))) => {
                FsStepView::Done(Err(VfsErrorView::Meta(e@)))
            },
            _ => FsStepView::Done(Err(misled())),
        }
    }

    fn request(&self) -> (r: FsRequest) {
        match &self.phase {
            WriteInodePhase::Data => {
                FsRequest::WriteData { ino: self.ino, offset: self.offset, data: copied(&self.data) }
            },
            WriteInodePhase::Size(_) => FsRequest::Getattr(self.ino),
            WriteInodePhase::Grow(n) => {
                FsRequest::Setattr(self.ino, SetAttrMask::size(self.offset + *n as u64))
            },
        }
    }

    fn resume(self, reply: FsReply) -> (r: FsStep<Self, usize>) {
        let WriteInode { ino, offset, data, phase } = self;
        let next = match (phase, reply) {
            (WriteInodePhase::Data, FsReply::Written(n)) => WriteInodePhase::Size(n),
            (WriteInodePhase::Size(n), FsReply::Attr(Ok(attr))) => {
                if offset + n as u64 > attr.size {
                    WriteInodePhase::Grow(n)
                } else {
                    return FsStep::Done(Ok(n));
                }
            },
            (WriteInodePhase::Size(_), FsReply::Attr(Err(e))) => {
                return FsStep::Done(Err(VfsError::Meta(e)))
            },
            (WriteInodePhase::Grow(n), FsReply::Attr(Ok(_))) => return FsStep::Done(Ok(n)),
            (WriteInodePhase::Grow(_), FsReply::Attr(Err(e))) => {
                return FsStep::Done(Err(VfsError::Meta(e)))
            },
            _ => return FsStep::Done(Err(make_misled())),
        };
        FsStep::Next(WriteInode { ino, offset, data, phase: next })
    }
}

/// The reading of bytes of an inode. No more is read than there is.
pub struct ReadInode {
    pub ino: Inode,
    pub offset: u64,
    /// How many bytes are wanted.
    pub len: usize,
    pub phase: ReadInodePhase,
}

/// How far the reading has come.
pub enum ReadInodePhase {
    Size,
    Data(usize),
}

impl ReadInode {
    /// Starts to read bytes of an inode.
    pub fn start(ino: Inode, offset: u64, len: usize) -> (r: ReadInode)
        ensures
            r == (ReadInode { ino, offset, len, phase: ReadInodePhase::Size }),
    {
        ReadInode { ino, offset, len, phase: ReadInodePhase::Size }
    }
}

impl ReadInode {
    /// The state in another phase.
    pub open spec fn at(self, phase: ReadInodePhase) -> ReadInode {
        ReadInode { phase, ..self }
    }
}

impl FsOperation for ReadInode {
    type State = ReadInode;

    type Output = Vec<u8>;

    type Shown = Seq<u8>;

    open spec fn state(self) -> ReadInode {
        self
    }

    open spec fn shown(out: Vec<u8>) -> Seq<u8> {
        out@
    }

    open spec fn ready(s: ReadInode) -> bool {
        true
    }

    open spec fn asks(s: ReadInode) -> FsRequestView {
        match s.phase {
            ReadInodePhase::Size => FsRequestView::Getattr(s.ino),
            ReadInodePhase::Data(n) => {
                FsRequestView::ReadData { ino: s.ino, offset: s.offset, len: n }
            },
        }
    }

    open spec fn after(s: ReadInode, reply: FsReply) -> FsStepView<ReadInode, Seq<u8>> {
        match (s.phase, reply) {
            (ReadInodePhase::Size, FsReply::Attr(Ok(attr))) => if readable(s.offset, s.len, attr.size) == 0 {
                FsStepView::Done(Ok(Seq::empty()))
            } else {
                FsStepView::Next(s.at(ReadInodePhase::Data(readable(s.offset, s.len, attr.size))))
            },
            (ReadInodePhase::Size, FsReply::Attr(Err(e))) => {
                FsStepView::Done(Err(VfsErrorView::Meta(e@)))
            },
            (ReadInodePhase::Data(_), FsReply::Data(bytes)) => FsStepView::Done(Ok(bytes@)),
            _ => FsStepView::Done(Err(misled())),
        }
    }

    fn request(&self) -> (r: FsRequest) {
        match &self.phase {
            ReadInodePhase::Size => FsRequest::Getattr(self.ino),
            ReadInodePhase::Data(n) => {
                FsRequest::ReadData { ino: self.ino, offset: self.offset, len: *n }
            },
        }
    }

    fn resume(self, reply: FsReply) -> (r: FsStep<Self, Vec<u8>>) {
        let ReadInode { ino, offset, len, phase } = self;
        let next = match (phase, reply) {
            (ReadInodePhase::Size, FsReply::Attr(Ok(attr))) => {
                let n: usize = readable_len(offset, len, attr.size);
                if n == 0 {
                    return FsStep::Done(Ok(Vec::new()));
                }
                ReadInodePhase::Data(n)
            },
            (ReadInodePhase::Size, FsReply::Attr(Err(e))) => {
                return FsStep::Done(Err(VfsError::Meta(e)))
            },
            (ReadInodePhase::Data(_), FsReply::Data(bytes)) => return FsStep::Done(Ok(bytes)),
            _ => return FsStep::Done(Err(make_misled())),
        };
        FsStep::Next(ReadInode { ino, offset, len, phase: next })
    }
}

/// The reading of bytes of a file by path.
pub struct ReadFile {
    /// The path in normal form.
    pub path: String,
    pub offset: u64,
    /// How many bytes are wanted.
    pub len: usize,
    pub phase: ReadFilePhase,
}

/// How far the reading has come.
pub enum ReadFilePhase {
    Path,
    Read(ReadInode),
}

impl ReadFile {
    /// Starts to read bytes of a file.
    pub fn start(path: &str, offset: u64, len: usize) -> (r: ReadFile)
        ensures
            r.path@ == normal(path@),
            r.offset == offset,
            r.len == len,
            r.phase == ReadFilePhase::Path,
    {
        ReadFile { path: norm_path(path), offset, len, phase: ReadFilePhase::Path }
    }

    /// The state in another phase.
    pub open spec fn at(self, phase: ReadFilePhase) -> ReadFile {
        ReadFile { phase, ..self }
    }
}

impl FsOperation for ReadFile {
    type State = ReadFile;

    type Output = Vec<u8>;

    type Shown = Seq<u8>;

    open spec fn state(self) -> ReadFile {
        self
    }

    open spec fn shown(out: Vec<u8>) -> Seq<u8> {
        out@
    }

    open spec fn ready(s: ReadFile) -> bool {
        true
    }

    open spec fn asks(s: ReadFile) -> FsRequestView {
        match s.phase {
            ReadFilePhase::Path => FsRequestView::Resolve(s.path@),
            ReadFilePhase::Read(read) => ReadInode::asks(read),
        }
    }

    open spec fn after(s: ReadFile, reply: FsReply) -> FsStepView<ReadFile, Seq<u8>> {
        match s.phase {
            ReadFilePhase::Path => match reply {
                FsReply::Path(Ok(ino)) => FsStepView::Next(
                    s.at(
                        ReadFilePhase::Read(
                            ReadInode {
                                ino,
                                offset: s.offset,
                                len: s.len,
                                phase: ReadInodePhase::Size,
                            },
                        ),
                    ),
                ),
                FsReply::Path(Err(e)) => FsStepView::Done(Err(e@)),
                _ => FsStepView::Done(Err(misled())),
            },
            ReadFilePhase::Read(read) => match ReadInode::after(read, reply) {
                FsStepView::Next(more) => FsStepView::Next(s.at(ReadFilePhase::Read(more))),
                FsStepView::Done(r) => FsStepView::Done(r),
            },
        }
    }

    fn request(&self) -> (r: FsRequest) {
        match &self.phase {
            ReadFilePhase::Path => FsRequest::Resolve(self.path.clone()),
            ReadFilePhase::Read(read) => read.request(),
        }
    }

    fn resume(self, reply: FsReply) -> (r: FsStep<Self, Vec<u8>>) {
        let ReadFile { path, offset, len, phase } = self;
        let next = match phase {
            ReadFilePhase::Path => match reply {
                FsReply::Path(Ok(ino)) => ReadFilePhase::Read(ReadInode::start(ino, offset, len)),
                FsReply::Path(Err(e)) => return FsStep::Done(Err(e)),
                _ => return FsStep::Done(Err(make_misled())),
            },
            ReadFilePhase::Read(read) => match read.resume(reply) {
                FsStep::Next(more) => ReadFilePhase::Read(more),
                FsStep::Done(r) => return FsStep::Done(r),
            },
        };
        FsStep::Next(ReadFile { path, offset, len, phase: next })
    }
}

} // verus!
