//! The walk along a path, and the making of directories.

use crate::meta::store::{FileType, MetaError};
use crate::meta::types::{CreateParams, Inode};
use crate::text::{components, path_components, texts};
use crate::vfs::error::{VfsError, VfsErrorView};
use crate::vfs::op::{
    make_misled, misled, CreateView, FsOperation, FsReply, FsRequest, FsRequestView, FsStep,
    FsStepView,
};
use crate::vfs::path::{norm_path, normal, path_from, path_of};
use vstd::prelude::*;
use vstd::string::*;

verus! {

/// The error when a path leads nowhere.
pub open spec fn not_found(path: Seq<char>, e: MetaError) -> VfsErrorView {
    VfsErrorView::PathNotFound(path + ": "@ + e.text())
}

/// The error when a path leads nowhere.
fn make_not_found(path: &String, e: &MetaError) -> (r: VfsError)
    ensures
        r@ == not_found(path@, *e),
{
    let mut text = path.clone();
    text.append(": ");
    text.append(e.message().as_str());
    VfsError::PathNotFound(text)
}

/// The walk along a path, name by name.
pub struct Resolve {
    pub path: String,
    pub parts: Vec<String>,
    /// How many names have been looked up.
    pub at: usize,
    /// What the names so far stand for.
    pub current: Inode,
}

/// The view of a walk.
pub struct ResolveState {
    pub path: Seq<char>,
    pub parts: Seq<Seq<char>>,
    pub at: int,
    pub current: Inode,
}

impl Resolve {
    /// Starts a walk. A path without names is the root.
    pub fn start(root: Inode, path: &str) -> (r: FsStep<Resolve, Inode>)
        ensures
            match r {
                FsStep::Next(s) => components(path@).len() > 0 && s.state() == (ResolveState {
                    path: path@,
                    parts: components(path@),
                    at: 0,
                    current: root,
                }),
                FsStep::Done(end) => components(path@).len() == 0 && end == Ok::<Inode, VfsError>(
                    root,
                ),
            },
    {
        let parts = path_components(path);
        assert(texts(parts@).len() == parts@.len());
        if parts.len() == 0 {
            return FsStep::Done(Ok(root));
        }
        FsStep::Next(Resolve { path: path.to_owned(), parts, at: 0, current: root })
    }
}

impl FsOperation for Resolve {
    type State = ResolveState;

    type Output = Inode;

    type Shown = Inode;

    open spec fn state(self) -> ResolveState {
        ResolveState {
            path: self.path@,
            parts: texts(self.parts@),
            at: self.at as int,
            current: self.current,
        }
    }

    open spec fn shown(out: Inode) -> Inode {
        out
    }

    open spec fn ready(s: ResolveState) -> bool {
        0 <= s.at < s.parts.len()
    }

    open spec fn asks(s: ResolveState) -> FsRequestView {
        FsRequestView::Lookup { parent: s.current, name: s.parts[s.at] }
    }

    open spec fn after(s: ResolveState, reply: FsReply) -> FsStepView<ResolveState, Inode> {
        match reply {
            FsReply::Child(Ok(ino)) => if s.at + 1 < s.parts.len() {
                FsStepView::Next(ResolveState { at: s.at + 1, current: ino, ..s })
            } else {
                FsStepView::Done(Ok(ino))
            },
            FsReply::Child(Err(e)) => FsStepView::Done(Err(not_found(s.path, e))),
            _ => FsStepView::Done(Err(misled())),
        }
    }

    fn request(&self) -> (r: FsRequest) {
        assert(texts(self.parts@).len() == self.parts@.len());
        FsRequest::Lookup { parent: self.current, name: self.parts[self.at].clone() }
    }

    fn resume(self, reply: FsReply) -> (r: FsStep<Self, Inode>) {
        assert(texts(self.parts@).len() == self.parts@.len());
        match reply {
            FsReply::Child(Ok(ino)) => {
                let n: usize = self.parts.len();
                if self.at + 1 < n {
                    FsStep::Next(Resolve { at: self.at + 1, current: ino, ..self })
                } else {
                    FsStep::Done(Ok(ino))
                }
            },
            FsReply::Child(Err(e)) => FsStep::Done(Err(make_not_found(&self.path, &e))),
            _ => FsStep::Done(Err(make_misled())),
        }
    }
}

/// The making of the directories of a path.
pub struct MkdirP {
    pub path: String,
    pub parts: Vec<String>,
    /// How many names are done.
    pub at: usize,
    /// The directory of the names that are done.
    pub current: Inode,
    pub phase: MkdirPhase,
}

/// How far the making of directories has come.
#[derive(Debug, Clone, Copy)]
pub enum MkdirPhase {
    /// The whole path is looked for.
    Whole,
    /// The path of the names up to the next one is looked for.
    Prefix,
    /// What was found there is looked at.
    Found(Inode),
    /// The next directory is made.
    Make,
}

/// The view of the making of directories.
pub struct MkdirState {
    pub path: Seq<char>,
    pub parts: Seq<Seq<char>>,
    pub at: int,
    pub current: Inode,
    pub phase: MkdirPhase,
}

impl MkdirState {
    /// Goes on below a directory, or ends with it.
    pub open spec fn below(self, ino: Inode) -> FsStepView<MkdirState, Inode> {
        if self.at + 1 < self.parts.len() {
            FsStepView::Next(
                MkdirState { at: self.at + 1, current: ino, phase: MkdirPhase::Prefix, ..self },
            )
        } else {
            FsStepView::Done(Ok(ino))
        }
    }
}

/// The parameters of a directory that is made on the way.
pub open spec fn dir_params(parent: Inode, name: Seq<char>) -> CreateView {
    CreateView { parent, name, kind: FileType::Dir, mode: 0o755, uid: 0, gid: 0 }
}

impl MkdirP {
    /// Starts to make the directories of a path. The root is there.
    pub fn start(root: Inode, path: &str) -> (r: FsStep<MkdirP, Inode>)
        ensures
            match r {
                FsStep::Next(s) => components(path@).len() > 0 && s.state() == (MkdirState {
                    path: normal(path@),
                    parts: components(path@),
                    at: 0,
                    current: root,
                    phase: MkdirPhase::Whole,
                }) && MkdirP::ready(s.state()),
                FsStep::Done(end) => components(path@).len() == 0 && end == Ok::<Inode, VfsError>(
                    root,
                ),
            },
    {
        let parts = path_components(path);
        assert(texts(parts@).len() == parts@.len());
        if parts.len() == 0 {
            return FsStep::Done(Ok(root));
        }
        FsStep::Next(
            MkdirP { path: norm_path(path), parts, at: 0, current: root, phase: MkdirPhase::Whole },
        )
    }

    /// Goes on below a directory, or ends with it.
    fn below(self, ino: Inode) -> (r: FsStep<MkdirP, Inode>)
        requires
            self.at < self.parts.len(),
        ensures
            (match r {
                FsStep::Next(s) => FsStepView::<MkdirState, Inode>::Next(s.state()),
                FsStep::Done(Ok(out)) => FsStepView::<MkdirState, Inode>::Done(Ok(out)),
                FsStep::Done(Err(e)) => FsStepView::<MkdirState, Inode>::Done(Err(e@)),
            }) == self.state().below(ino),
            r matches FsStep::Next(s) ==> MkdirP::ready(s.state()),
    {
        assert(texts(self.parts@).len() == self.parts@.len());
        if self.at + 1 < self.parts.len() {
            FsStep::Next(
                MkdirP { at: self.at + 1, current: ino, phase: MkdirPhase::Prefix, ..self },
            )
        } else {
            FsStep::Done(Ok(ino))
        }
    }
}

impl FsOperation for MkdirP {
    type State = MkdirState;

    type Output = Inode;

    type Shown = Inode;

    open spec fn state(self) -> MkdirState {
        MkdirState {
            path: self.path@,
            parts: texts(self.parts@),
            at: self.at as int,
            current: self.current,
            phase: self.phase,
        }
    }

    open spec fn shown(out: Inode) -> Inode {
        out
    }

    open spec fn ready(s: MkdirState) -> bool {
        0 <= s.at < s.parts.len()
    }

    open spec fn asks(s: MkdirState) -> FsRequestView {
        match s.phase {
            MkdirPhase::Whole => FsRequestView::Resolve(s.path),
            MkdirPhase::Prefix => FsRequestView::Resolve(path_of(s.parts.take(s.at + 1))),
            MkdirPhase::Found(ino) => FsRequestView::Getattr(ino),
            MkdirPhase::Make => FsRequestView::Create(dir_params(s.current, s.parts[s.at])),
        }
    }

    open spec fn after(s: MkdirState, reply: FsReply) -> FsStepView<MkdirState, Inode> {
        match (s.phase, reply) {
            (MkdirPhase::Whole, FsReply::Path(Ok(ino))) => FsStepView::Done(Ok(ino)),
            (MkdirPhase::Whole, FsReply::Path(Err(_))) => FsStepView::Next(
                MkdirState { phase: MkdirPhase::Prefix, ..s },
            ),
            (MkdirPhase::Prefix, FsReply::Path(Ok(ino))) => FsStepView::Next(
                MkdirState { phase: MkdirPhase::Found(ino), ..s },
            ),
            (MkdirPhase::Prefix, FsReply::Path(Err(_))) => FsStepView::Next(
                MkdirState { phase: MkdirPhase::Make, ..s },
            ),
            (MkdirPhase::Found(ino), FsReply::Attr(Ok(attr))) => if attr.kind != FileType::Dir {
                FsStepView::Done(Err(VfsErrorView::NotDirectory(s.path)))
            } else {
                s.below(ino)
            },
            (MkdirPhase::Found(ino), FsReply::Attr(Err(_))) => s.below(ino),
            (MkdirPhase::Make, FsReply::Created(Ok(made))) => s.below(made.0),
            (MkdirPhase::Make, FsReply::Created(Err(e))) => FsStepView::Done(
                Err(VfsErrorView::Meta(e@)),
            ),
            _ => FsStepView::Done(Err(misled())),
        }
    }

    fn request(&self) -> (r: FsRequest) {
        assert(texts(self.parts@).len() == self.parts@.len());
        match self.phase {
            MkdirPhase::Whole => FsRequest::Resolve(self.path.clone()),
            MkdirPhase::Prefix => {
                let n: usize = self.parts.len();
                assert(self.at < n);
                FsRequest::Resolve(path_from(&self.parts, self.at + 1))
            },
            MkdirPhase::Found(ino) => FsRequest::Getattr(ino),
            MkdirPhase::Make => FsRequest::Create(
                CreateParams {
                    parent: self.current,
                    name: self.parts[self.at].clone(),
                    kind: FileType::Dir,
                    mode: 0o755,
                    uid: 0,
                    gid: 0,
                },
            ),
        }
    }

    fn resume(self, reply: FsReply) -> (r: FsStep<Self, Inode>) {
        assert(texts(self.parts@).len() == self.parts@.len());
        match (self.phase, reply) {
            (MkdirPhase::Whole, FsReply::Path(Ok(ino))) => FsStep::Done(Ok(ino)),
            (MkdirPhase::Whole, FsReply::Path(Err(_))) => FsStep::Next(
                MkdirP { phase: MkdirPhase::Prefix, ..self },
            ),
            (MkdirPhase::Prefix, FsReply::Path(Ok(ino))) => FsStep::Next(
                MkdirP { phase: MkdirPhase::Found(ino), ..self },
            ),
            (MkdirPhase::Prefix, FsReply::Path(Err(_))) => FsStep::Next(
                MkdirP { phase: MkdirPhase::Make, ..self },
            ),
            (MkdirPhase::Found(ino), FsReply::Attr(Ok(attr))) => {
                if attr.kind != FileType::Dir {
                    FsStep::Done(Err(VfsError::NotDirectory(self.path)))
                } else {
                    self.below(ino)
                }
            },
            (MkdirPhase::Found(ino), FsReply::Attr(Err(_))) => self.below(ino),
            (MkdirPhase::Make, FsReply::Created(Ok(made))) => self.below(made.0),
            (MkdirPhase::Make, FsReply::Created(Err(e))) => FsStep::Done(Err(VfsError::Meta(e))),
            _ => FsStep::Done(Err(make_misled())),
        }
    }
}

} // verus!
