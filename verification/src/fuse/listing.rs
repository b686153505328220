//! Listings for the kernel.
//!
//! An entry has an offset, from which the kernel goes on after it. The directory itself and the
//! root come first, as `.` and `..`.

use crate::fuse::adapter::{
    first_phase, fuse_kind, vfs_kind_to_fuse, FuseAdapter, FuseAttr, FuseCall, FuseKind,
    FuseRequest,
};
use crate::meta::error::{eio, enotdir};
use crate::meta::store::{DirEntry, FileAttr, FileType, MetaError};
use crate::meta::types::Inode;
use crate::vfs::op::{
    make_misled, misled, FsOperation, FsReply, FsRequest, FsRequestView, FsStep, FsStepView,
};
use vstd::prelude::*;
use vstd::string::*;

verus! {

/// An entry that the kernel is told.
#[derive(Debug, Clone)]
pub struct FuseEntry {
    pub inode: u64,
    pub kind: FuseKind,
    pub name: String,
    pub offset: i64,
}

/// An entry over views.
pub struct FuseEntryView {
    pub inode: u64,
    pub kind: FuseKind,
    pub name: Seq<char>,
    pub offset: int,
}

impl View for FuseEntry {
    type V = FuseEntryView;

    open spec fn view(&self) -> FuseEntryView {
        FuseEntryView {
            inode: self.inode,
            kind: self.kind,
            name: self.name@,
            offset: self.offset as int,
        }
    }
}

/// The entries over views.
pub open spec fn entry_views(list: Seq<FuseEntry>) -> Seq<FuseEntryView> {
    Seq::new(list.len(), |i: int| list[i]@)
}

/// The directory itself.
pub open spec fn dot(inode: u64) -> FuseEntryView {
    FuseEntryView { inode, kind: FuseKind::Directory, name: "."@, offset: 1 }
}

/// The root in the place of the parent.
pub open spec fn dot_dot() -> FuseEntryView {
    FuseEntryView { inode: 1, kind: FuseKind::Directory, name: ".."@, offset: 2 }
}

/// An entry at its place.
pub open spec fn entry_at(e: DirEntry, i: int) -> FuseEntryView {
    FuseEntryView { inode: e.ino as u64, kind: fuse_kind(e.kind), name: e.name@, offset: i + 3 }
}

/// The whole listing.
pub open spec fn whole(inode: u64, entries: Seq<DirEntry>) -> Seq<FuseEntryView> {
    seq![dot(inode), dot_dot()] + Seq::new(entries.len(), |i: int| entry_at(entries[i], i))
}

/// The listing from an offset on.
pub open spec fn listing(inode: u64, entries: Seq<DirEntry>, offset: int) -> Seq<FuseEntryView> {
    let all = whole(inode, entries);
    if offset <= 0 {
        all
    } else if offset >= all.len() {
        Seq::empty()
    } else {
        all.skip(offset)
    }
}

/// Whether the kernel is told the directory itself, the root and the children of the directory, one
/// after the other from an offset on: the child at each place with its inode, its name, and as a
/// directory if and only if it is one.
pub open spec fn tells_children(
    inode: u64,
    entries: Seq<DirEntry>,
    offset: int,
    told: Seq<FuseEntry>,
) -> bool {
    let from = if offset <= 0 {
        0
    } else {
        offset
    };
    &&& from <= entries.len() + 2 ==> told.len() == entries.len() + 2 - from
    &&& from > entries.len() + 2 ==> told.len() == 0
    &&& forall|j: int|
        0 <= j < told.len() ==> {
            let e = #[trigger] told[j];
            &&& e.offset == from + j + 1
            &&& from + j == 0 ==> e.inode == inode && e.name@ == "."@ && e.kind
                == FuseKind::Directory
            &&& from + j == 1 ==> e.inode == 1 && e.name@ == ".."@ && e.kind == FuseKind::Directory
            &&& from + j >= 2 ==> {
                let child = entries[from + j - 2];
                &&& e.inode == child.ino as u64
                &&& e.name@ == child.name@
                &&& e.kind == FuseKind::Directory <==> child.kind == FileType::Dir
            }
        }
}

/// A list whose views are those of the listing tells the children.
proof fn lemma_tells_children(
    inode: u64,
    entries: Seq<DirEntry>,
    offset: int,
    told: Seq<FuseEntry>,
)
    requires
        entry_views(told) == listing(inode, entries, offset),
    ensures
        tells_children(inode, entries, offset, told),
{
    let all = whole(inode, entries);
    let from = if offset <= 0 {
        0
    } else {
        offset
    };
    assert(entry_views(told).len() == told.len());
    assert forall|j: int| 0 <= j < told.len() implies (#[trigger] told[j])@ == all[from + j] by {
        assert(entry_views(told)[j] == told[j]@);
        assert(listing(inode, entries, offset)[j] == all[from + j]);
    }
}

/// The entry of the directory itself.
fn make_dot(inode: u64) -> (r: FuseEntry)
    ensures
        r@ == dot(inode),
{
    FuseEntry { inode, kind: FuseKind::Directory, name: String::from_str("."), offset: 1 }
}

/// The entry of the root.
fn make_dot_dot() -> (r: FuseEntry)
    ensures
        r@ == dot_dot(),
{
    FuseEntry { inode: 1, kind: FuseKind::Directory, name: String::from_str(".."), offset: 2 }
}

/// An entry at its place.
fn make_entry(e: &DirEntry, i: usize) -> (r: FuseEntry)
    requires
        i < i64::MAX - 3,
    ensures
        r@ == entry_at(*e, i as int),
{
    FuseEntry {
        inode: e.ino as u64,
        kind: vfs_kind_to_fuse(e.kind),
        name: e.name.clone(),
        offset: i as i64 + 3,
    }
}

/// The listing from an offset on, entry by entry.
fn list_from(inode: u64, offset: i64, entries: &Vec<DirEntry>) -> (r: Vec<FuseEntry>)
    requires
        entries.len() < i64::MAX - 3,
    ensures
        entry_views(r@) == listing(inode, entries@, offset as int),
{
    let ghost all = whole(inode, entries@);
    let mut r: Vec<FuseEntry> = Vec::new();
    assert(entry_views(r@) =~= Seq::empty());
    if offset <= 0 {
        r.push(make_dot(inode));
        assert(entry_views(r@) =~= seq![dot(inode)]);
    }
    if offset <= 1 {
        let ghost before = entry_views(r@);
        r.push(make_dot_dot());
        assert(entry_views(r@) =~= before.push(dot_dot()));
    }
    let ghost from = if offset <= 0 {
        0int
    } else {
        offset as int
    };
    let ghost start = if from <= 2 {
        from
    } else {
        2int
    };
    assert(entry_views(r@) =~= all.subrange(start, 2));
    let mut i: usize = 0;
    while i < entries.len()
        invariant
            i <= entries.len(),
            entries.len() < i64::MAX - 3,
            all == whole(inode, entries@),
            from == (if offset <= 0 {
                0int
            } else {
                offset as int
            }),
            entry_views(r@) == (if from <= i + 2 {
                all.subrange(from, i + 2)
            } else {
                Seq::empty()
            }),
        decreases entries.len() - i,
    {
        let ghost before = entry_views(r@);
        let entry_offset: i64 = i as i64 + 3;
        assert(all[i + 2] == entry_at(entries@[i as int], i as int));
        if offset < entry_offset {
            r.push(make_entry(&entries[i], i));
            assert(entry_views(r@) =~= before.push(all[i + 2]));
            assert(all.subrange(from, i + 3) =~= all.subrange(from, i + 2).push(all[i + 2]));
        }
        proof {
            if from == i + 3 {
                assert(all.subrange(from, i + 3) =~= Seq::empty());
            }
        }
        i = i + 1;
    }
    proof {
        let n = all.len() as int;
        if from <= n {
            assert(all.subrange(from, n) =~= all.skip(from));
        }
        if from == 0 {
            assert(all.skip(0) =~= all);
        }
        assert(entry_views(r@) =~= listing(inode, entries@, offset as int));
    }
    r
}

impl FuseAdapter {
    /// Answers a request for a listing, given the entries of the directory.
    pub fn readdir(
        &self,
        inode: u64,
        offset: i64,
        entries: &Result<Vec<DirEntry>, MetaError>,
    ) -> (r: Result<Vec<FuseEntry>, i32>)
        requires
            entries matches Ok(list) ==> list@.len() < i64::MAX - 3,
        ensures
            match entries {
                Ok(list) => r matches Ok(told) && entry_views(told@) == listing(
                    inode,
                    list@,
                    offset as int,
                ) && tells_children(inode, list@, offset as int, told@),
                Err(_) => r == Err::<Vec<FuseEntry>, i32>(5),
            },
    {
        match entries {
            Ok(list) => {
                let told = list_from(inode, offset, list);
                proof {
                    lemma_tells_children(inode, list@, offset as int, told@);
                }
                Ok(told)
            },
            Err(_) => Err(eio()),
        }
    }
}

/// A call with the standard mode in place of the one that is given.
pub open spec fn in_standard_mode(call: FuseCall) -> FuseCall {
    match call {
        FuseCall::Mkdir { parent, name, mode } => FuseCall::Mkdir { parent, name, mode: 0o755 },
        FuseCall::Create { parent, name, mode } => FuseCall::Create { parent, name, mode: 0o644 },
        other => other,
    }
}

/// Answers the kernel. The modes that the kernel gives are left aside, and of a listing that fails
/// it is told that it is of no directory.
#[derive(Debug, Clone, Copy)]
pub struct FuseAdapterV2 {
    pub uid: u32,
    pub gid: u32,
}

impl FuseAdapterV2 {
    /// The adapter for a user and a group.
    pub fn new(uid: u32, gid: u32) -> (r: Self)
        ensures
            r == (FuseAdapterV2 { uid, gid }),
    {
        FuseAdapterV2 { uid, gid }
    }

    /// The adapter that tells the same attributes.
    fn adapter(&self) -> (r: FuseAdapter)
        ensures
            r == (FuseAdapter { uid: self.uid, gid: self.gid }),
    {
        FuseAdapter { uid: self.uid, gid: self.gid }
    }

    /// Starts to answer. A file and a directory are made with the standard mode, whatever the
    /// kernel gives.
    pub fn answer(self, call: FuseCall) -> (r: FuseRequest)
        ensures
            r.adapter == (FuseAdapter { uid: self.uid, gid: self.gid }),
            r.call == in_standard_mode(call),
            r.phase == first_phase(call),
            match call {
                FuseCall::Mkdir { parent, name, .. } => r.call == (FuseCall::Mkdir {
                    parent,
                    name,
                    mode: 0o755,
                }),
                FuseCall::Create { parent, name, .. } => r.call == (FuseCall::Create {
                    parent,
                    name,
                    mode: 0o644,
                }),
                _ => r.call == call,
            },
    {
        let call = match call {
            FuseCall::Mkdir { parent, name, mode } => FuseCall::Mkdir {
                parent,
                name,
                mode: 0o755,
            },
            FuseCall::Create { parent, name, mode } => FuseCall::Create {
                parent,
                name,
                mode: 0o644,
            },
            other => other,
        };
        self.adapter().answer(call)
    }

    /// The attributes that the kernel is told.
    pub fn to_fuse_attr(&self, attr: &FileAttr) -> (r: FuseAttr)
        ensures
            r == (FuseAdapter { uid: self.uid, gid: self.gid }).fuse_attr(*attr),
    {
        self.adapter().to_fuse_attr(attr)
    }

    /// Answers a request for a listing: the whole listing is made, and cut at the offset.
    pub fn readdir(
        &self,
        inode: u64,
        offset: i64,
        entries: &Result<Vec<DirEntry>, MetaError>,
    ) -> (r: Result<Vec<FuseEntry>, i32>)
        requires
            entries matches Ok(list) ==> list@.len() < i64::MAX - 3,
        ensures
            match entries {
                Ok(list) => r matches Ok(told) && entry_views(told@) == listing(
                    inode,
                    list@,
                    offset as int,
                ) && tells_children(inode, list@, offset as int, told@),
                Err(_) => r == Err::<Vec<FuseEntry>, i32>(20),
            },
    {
        let entries = match entries {
            Ok(list) => list,
            Err(_) => return Err(enotdir()),
        };
        let all = list_from(inode, 0, entries);
        let ghost told = whole(inode, entries@);
        assert(entry_views(all@) == told);
        if offset > 0 && offset as u64 >= all.len() as u64 {
            let none: Vec<FuseEntry> = Vec::new();
            assert(entry_views(none@) =~= Seq::empty());
            proof {
                lemma_tells_children(inode, entries@, offset as int, none@);
            }
            return Ok(none);
        }
        let start: usize = if offset <= 0 {
            0
        } else {
            offset as usize
        };
        let mut r: Vec<FuseEntry> = Vec::new();
        let mut i: usize = start;
        assert(entry_views(r@) =~= told.subrange(start as int, start as int));
        while i < all.len()
            invariant
                start <= i <= all.len(),
                entry_views(all@) == told,
                entry_views(r@) == told.subrange(start as int, i as int),
            decreases all.len() - i,
        {
            let e = &all[i];
            let ghost before = entry_views(r@);
            r.push(
                FuseEntry { inode: e.inode, kind: e.kind, name: e.name.clone(), offset: e.offset },
            );
            i = i + 1;
            assert(all@[i - 1]@ == told[i - 1]);
            assert(entry_views(r@) =~= before.push(told[i - 1]));
            assert(told.subrange(start as int, i as int) =~= told.subrange(
                start as int,
                i - 1,
            ).push(told[i - 1]));
        }
        assert(told.subrange(start as int, told.len() as int) =~= told.skip(start as int));
        assert(told.skip(0) =~= told);
        proof {
            lemma_tells_children(inode, entries@, offset as int, r@);
        }
        Ok(r)
    }
}

/// A listing that is taken up after one of its entries goes on with the next one: nothing is told
/// twice or left out.
pub proof fn law_listing_is_taken_up(inode: u64, entries: Seq<DirEntry>, offset: int, i: int)
    requires
        0 <= i < listing(inode, entries, offset).len(),
    ensures
        listing(inode, entries, listing(inode, entries, offset)[i].offset) == listing(
            inode,
            entries,
            offset,
        ).skip(i + 1),
{
    let all = whole(inode, entries);
    let part = listing(inode, entries, offset);
    let from = if offset <= 0 {
        0int
    } else {
        offset
    };
    assert(part[i] == all[from + i]);
    assert(all[from + i].offset == from + i + 1);
    assert(listing(inode, entries, from + i + 1) =~= part.skip(i + 1));
}

/// An entry with its attributes that the kernel is told.
#[derive(Debug, Clone)]
pub struct FuseEntryPlus {
    pub entry: FuseEntry,
    pub attr: FuseAttr,
}

/// A listing with attributes that is being made.
pub struct ReaddirPlus {
    pub adapter: FuseAdapter,
    pub parent: u64,
    pub offset: u64,
    pub phase: PlusPhase,
}

/// How far such a listing has come.
pub enum PlusPhase {
    /// The entries are read.
    Entries,
    /// The attributes of the directory are read.
    Dot(Vec<DirEntry>),
    /// The attributes of the root are read.
    DotDot(Vec<DirEntry>, Vec<FuseEntryPlus>),
    /// The attributes of the entry at an index are read.
    Each(Vec<DirEntry>, Vec<FuseEntryPlus>, usize),
}

/// The view of such a listing.
pub struct PlusState {
    pub adapter: FuseAdapter,
    pub parent: u64,
    pub offset: u64,
    pub at: PlusAt,
}

/// The view of how far such a listing has come.
pub enum PlusAt {
    Entries,
    Dot(Seq<DirEntry>),
    DotDot(Seq<DirEntry>, Seq<(FuseEntryView, FuseAttr)>),
    Each(Seq<DirEntry>, Seq<(FuseEntryView, FuseAttr)>, int),
}

/// The entries with attributes over views.
pub open spec fn plus_views(list: Seq<FuseEntryPlus>) -> Seq<(FuseEntryView, FuseAttr)> {
    Seq::new(list.len(), |i: int| (list[i].entry@, list[i].attr))
}

/// The first entry from an index on whose offset is after that of the request.
pub open spec fn next_index(offset: u64, i: int) -> int {
    if offset < i + 3 {
        i
    } else {
        offset - 2
    }
}

impl PlusState {
    /// Goes on with the entry at an index, or ends.
    pub open spec fn each(
        self,
        entries: Seq<DirEntry>,
        told: Seq<(FuseEntryView, FuseAttr)>,
        i: int,
    ) -> FsStepView<PlusState, Result<Seq<(FuseEntryView, FuseAttr)>, i32>> {
        if next_index(self.offset, i) < entries.len() {
            FsStepView::Next(
                PlusState {
                    at: PlusAt::Each(entries, told, next_index(self.offset, i)),
                    ..self
                },
            )
        } else {
            FsStepView::Done(Ok(Ok(told)))
        }
    }

    /// Goes on after the directory itself.
    pub open spec fn after_dot(
        self,
        entries: Seq<DirEntry>,
        told: Seq<(FuseEntryView, FuseAttr)>,
    ) -> FsStepView<PlusState, Result<Seq<(FuseEntryView, FuseAttr)>, i32>> {
        if self.offset <= 1 {
            FsStepView::Next(PlusState { at: PlusAt::DotDot(entries, told), ..self })
        } else {
            self.each(entries, told, 0)
        }
    }
}

impl FuseAdapter {
    /// Begins to answer a request for a listing with attributes.
    pub fn readdirplus(&self, parent: u64, offset: u64) -> (r: ReaddirPlus)
        ensures
            r.state() == (PlusState { adapter: *self, parent, offset, at: PlusAt::Entries }),
            ReaddirPlus::ready(r.state()),
    {
        ReaddirPlus { adapter: *self, parent, offset, phase: PlusPhase::Entries }
    }
}

impl ReaddirPlus {
    /// Goes on with the entry at an index, or ends.
    fn each(
        adapter: FuseAdapter,
        parent: u64,
        offset: u64,
        entries: Vec<DirEntry>,
        told: Vec<FuseEntryPlus>,
        i: usize,
    ) -> (r: FsStep<ReaddirPlus, Result<Vec<FuseEntryPlus>, i32>>)
        requires
            i <= entries.len(),
            entries.len() < i64::MAX - 3,
        ensures
            (match r {
                FsStep::Next(s) => FsStepView::Next(s.state()),
                FsStep::Done(Ok(out)) => FsStepView::Done(Ok(ReaddirPlus::shown(out))),
                FsStep::Done(Err(e)) => FsStepView::Done(Err(e@)),
            }) == (PlusState { adapter, parent, offset, at: PlusAt::Entries }).each(
                entries@,
                plus_views(told@),
                i as int,
            ),
            r matches FsStep::Next(s) ==> ReaddirPlus::ready(s.state()),
    {
        let n: usize = entries.len();
        if offset < i as u64 + 3 {
            if i < n {
                return FsStep::Next(
                    ReaddirPlus {
                        adapter,
                        parent,
                        offset,
                        phase: PlusPhase::Each(entries, told, i),
                    },
                );
            }
        } else if offset - 2 < n as u64 {
            let at: usize = (offset - 2) as usize;
            return FsStep::Next(
                ReaddirPlus { adapter, parent, offset, phase: PlusPhase::Each(entries, told, at) },
            );
        }
        FsStep::Done(Ok(Ok(told)))
    }

    /// Goes on after the directory itself.
    fn after_dot(
        adapter: FuseAdapter,
        parent: u64,
        offset: u64,
        entries: Vec<DirEntry>,
        told: Vec<FuseEntryPlus>,
    ) -> (r: FsStep<ReaddirPlus, Result<Vec<FuseEntryPlus>, i32>>)
        requires
            entries.len() < i64::MAX - 3,
        ensures
            (match r {
                FsStep::Next(s) => FsStepView::Next(s.state()),
                FsStep::Done(Ok(out)) => FsStepView::Done(Ok(ReaddirPlus::shown(out))),
                FsStep::Done(Err(e)) => FsStepView::Done(Err(e@)),
            }) == (PlusState { adapter, parent, offset, at: PlusAt::Entries }).after_dot(
                entries@,
                plus_views(told@),
            ),
            r matches FsStep::Next(s) ==> ReaddirPlus::ready(s.state()),
    {
        if offset <= 1 {
            FsStep::Next(
                ReaddirPlus { adapter, parent, offset, phase: PlusPhase::DotDot(entries, told) },
            )
        } else {
            ReaddirPlus::each(adapter, parent, offset, entries, told, 0)
        }
    }
}

impl FsOperation for ReaddirPlus {
    type State = PlusState;

    type Output = Result<Vec<FuseEntryPlus>, i32>;

    type Shown = Result<Seq<(FuseEntryView, FuseAttr)>, i32>;

    open spec fn state(self) -> PlusState {
        PlusState {
            adapter: self.adapter,
            parent: self.parent,
            offset: self.offset,
            at: match self.phase {
                PlusPhase::Entries => PlusAt::Entries,
                PlusPhase::Dot(entries) => PlusAt::Dot(entries@),
                PlusPhase::DotDot(entries, told) => PlusAt::DotDot(entries@, plus_views(told@)),
                PlusPhase::Each(entries, told, i) => PlusAt::Each(
                    entries@,
                    plus_views(told@),
                    i as int,
                ),
            },
        }
    }

    open spec fn shown(out: Result<Vec<FuseEntryPlus>, i32>) -> Result<
        Seq<(FuseEntryView, FuseAttr)>,
        i32,
    > {
        match out {
            Ok(list) => Ok(plus_views(list@)),
            Err(code) => Err(code),
        }
    }

    open spec fn ready(s: PlusState) -> bool {
        match s.at {
            PlusAt::Entries => true,
            PlusAt::Dot(entries) => entries.len() < i64::MAX - 3,
            PlusAt::DotDot(entries, _) => entries.len() < i64::MAX - 3,
            PlusAt::Each(entries, _, i) => 0 <= i < entries.len() < i64::MAX - 3,
        }
    }

    open spec fn asks(s: PlusState) -> FsRequestView {
        match s.at {
            PlusAt::Entries => FsRequestView::Readdir(Inode(s.parent as i64)),
            PlusAt::Dot(_) => FsRequestView::Getattr(Inode(s.parent as i64)),
            PlusAt::DotDot(_, _) => FsRequestView::Getattr(Inode(1)),
            PlusAt::Each(entries, _, i) => FsRequestView::Getattr(Inode(entries[i].ino)),
        }
    }

    open spec fn after(s: PlusState, reply: FsReply) -> FsStepView<
        PlusState,
        Result<Seq<(FuseEntryView, FuseAttr)>, i32>,
    > {
        match (s.at, reply) {
            (PlusAt::Entries, FsReply::Entries(Ok(list))) => if s.offset <= 0 {
                FsStepView::Next(PlusState { at: PlusAt::Dot(list@), ..s })
            } else {
                s.after_dot(list@, Seq::empty())
            },
            (PlusAt::Entries, FsReply::Entries(Err(_))) => FsStepView::Done(Ok(Err(5))),
            (PlusAt::Dot(entries), FsReply::Attr(Ok(attr))) => s.after_dot(
                entries,
                seq![(dot(s.parent), s.adapter.fuse_attr(attr))],
            ),
            (PlusAt::Dot(_), FsReply::Attr(Err(_))) => FsStepView::Done(Ok(Err(5))),
            (PlusAt::DotDot(entries, told), FsReply::Attr(Ok(attr))) => s.each(
                entries,
                told.push((dot_dot(), s.adapter.fuse_attr(attr))),
                0,
            ),
            (PlusAt::DotDot(_, _), FsReply::Attr(Err(_))) => FsStepView::Done(Ok(Err(5))),
            (PlusAt::Each(entries, told, i), FsReply::Attr(Ok(attr))) => s.each(
                entries,
                told.push((entry_at(entries[i], i), s.adapter.fuse_attr(attr))),
                i + 1,
            ),
            (PlusAt::Each(entries, told, i), FsReply::Attr(Err(_))) => s.each(
                entries,
                told,
                i + 1,
            ),
            _ => FsStepView::Done(Err(misled())),
        }
    }

    fn request(&self) -> (r: FsRequest) {
        match &self.phase {
            PlusPhase::Entries => FsRequest::Readdir(Inode(self.parent as i64)),
            PlusPhase::Dot(_) => FsRequest::Getattr(Inode(self.parent as i64)),
            PlusPhase::DotDot(_, _) => FsRequest::Getattr(Inode(1)),
            PlusPhase::Each(entries, _, i) => FsRequest::Getattr(Inode(entries[*i].ino)),
        }
    }

    fn resume(self, reply: FsReply) -> (r: FsStep<Self, Result<Vec<FuseEntryPlus>, i32>>) {
        let ReaddirPlus { adapter, parent, offset, phase } = self;
        match (phase, reply) {
            (PlusPhase::Entries, FsReply::Entries(Ok(list))) => {
                if offset <= 0 {
                    FsStep::Next(
                        ReaddirPlus { adapter, parent, offset, phase: PlusPhase::Dot(list) },
                    )
                } else {
                    let none: Vec<FuseEntryPlus> = Vec::new();
                    assert(plus_views(none@) =~= Seq::empty());
                    ReaddirPlus::after_dot(adapter, parent, offset, list, none)
                }
            },
            (PlusPhase::Entries, FsReply::Entries(Err(_))) => FsStep::Done(Ok(Err(eio()))),
            (PlusPhase::Dot(entries), FsReply::Attr(Ok(attr))) => {
                let mut told: Vec<FuseEntryPlus> = Vec::new();
                told.push(
                    FuseEntryPlus { entry: make_dot(parent), attr: adapter.to_fuse_attr(&attr) },
                );
                assert(plus_views(told@) =~= seq![(dot(parent), adapter.fuse_attr(attr))]);
                ReaddirPlus::after_dot(adapter, parent, offset, entries, told)
            },
            (PlusPhase::Dot(_), FsReply::Attr(Err(_))) => FsStep::Done(Ok(Err(eio()))),
            (PlusPhase::DotDot(entries, told), FsReply::Attr(Ok(attr))) => {
                let mut told = told;
                let ghost before = plus_views(told@);
                told.push(
                    FuseEntryPlus { entry: make_dot_dot(), attr: adapter.to_fuse_attr(&attr) },
                );
                assert(plus_views(told@) =~= before.push((dot_dot(), adapter.fuse_attr(attr))));
                ReaddirPlus::each(adapter, parent, offset, entries, told, 0)
            },
            (PlusPhase::DotDot(_, _), FsReply::Attr(Err(_))) => FsStep::Done(Ok(Err(eio()))),
            (PlusPhase::Each(entries, told, i), FsReply::Attr(Ok(attr))) => {
                let n: usize = entries.len();
                assert(i < n);
                let mut told = told;
                let ghost before = plus_views(told@);
                told.push(
                    FuseEntryPlus {
                        entry: make_entry(&entries[i], i),
                        attr: adapter.to_fuse_attr(&attr),
                    },
                );
                assert(plus_views(told@) =~= before.push(
                    (entry_at(entries@[i as int], i as int), adapter.fuse_attr(attr)),
                ));
                ReaddirPlus::each(adapter, parent, offset, entries, told, i + 1)
            },
            (PlusPhase::Each(entries, told, i), FsReply::Attr(Err(_))) => {
                let n: usize = entries.len();
                assert(i < n);
                ReaddirPlus::each(adapter, parent, offset, entries, told, i + 1)
            },
            _ => FsStep::Done(Err(make_misled())),
        }
    }
}

/// Whether a reply tells the entries and the attributes that there are.
pub open spec fn plus_tells(
    req: FsRequestView,
    entries: Seq<DirEntry>,
    attrs: Map<i64, FileAttr>,
    reply: FsReply,
) -> bool {
    match req {
        FsRequestView::Readdir(_) => reply matches FsReply::Entries(Ok(list)) && list@ == entries,
        FsRequestView::Getattr(ino) => match reply {
            FsReply::Attr(Ok(attr)) => attrs.dom().contains(ino.0) && attr == attrs[ino.0],
            FsReply::Attr(Err(_)) => !attrs.dom().contains(ino.0),
            _ => false,
        },
        _ => false,
    }
}

/// Whether a listing with attributes of a directory with some entries, where some inodes have
/// attributes that can be read, ends with a result.
pub open spec fn plays(
    s: PlusState,
    entries: Seq<DirEntry>,
    attrs: Map<i64, FileAttr>,
    replies: Seq<FsReply>,
    end: Result<Seq<(FuseEntryView, FuseAttr)>, i32>,
) -> bool
    decreases replies.len(),
{
    replies.len() > 0 && plus_tells(ReaddirPlus::asks(s), entries, attrs, replies[0])
        && match ReaddirPlus::after(s, replies[0]) {
        FsStepView::Next(s2) => plays(s2, entries, attrs, replies.drop_first(), end),
        FsStepView::Done(Ok(r)) => replies.len() == 1 && r == end,
        FsStepView::Done(Err(_)) => false,
    }
}

/// The entries from an index on, with their attributes. One whose attributes cannot be read is
/// left out; the others keep their offsets.
pub open spec fn told_from(
    adapter: FuseAdapter,
    entries: Seq<DirEntry>,
    attrs: Map<i64, FileAttr>,
    i: int,
) -> Seq<(FuseEntryView, FuseAttr)>
    decreases entries.len() - i,
{
    if i < 0 || i >= entries.len() {
        Seq::empty()
    } else if attrs.dom().contains(entries[i].ino) {
        seq![(entry_at(entries[i], i), adapter.fuse_attr(attrs[entries[i].ino]))] + told_from(
            adapter,
            entries,
            attrs,
            i + 1,
        )
    } else {
        told_from(adapter, entries, attrs, i + 1)
    }
}

/// The listing with attributes after an offset: the directory itself, the root, and the entries.
pub open spec fn plus_listing(
    adapter: FuseAdapter,
    parent: u64,
    entries: Seq<DirEntry>,
    attrs: Map<i64, FileAttr>,
    offset: int,
) -> Seq<(FuseEntryView, FuseAttr)> {
    let own = seq![(dot(parent), adapter.fuse_attr(attrs[parent as i64]))];
    let root = seq![(dot_dot(), adapter.fuse_attr(attrs[1]))];
    if offset <= 0 {
        own + root + told_from(adapter, entries, attrs, 0)
    } else if offset == 1 {
        root + told_from(adapter, entries, attrs, 0)
    } else {
        told_from(adapter, entries, attrs, offset - 2)
    }
}

/// From an entry on, all entries whose attributes can be read are told.
proof fn lemma_each_is_told(
    s: PlusState,
    entries: Seq<DirEntry>,
    attrs: Map<i64, FileAttr>,
    told: Seq<(FuseEntryView, FuseAttr)>,
    i: int,
    replies: Seq<FsReply>,
    end: Result<Seq<(FuseEntryView, FuseAttr)>, i32>,
)
    requires
        s.at == PlusAt::Each(entries, told, i),
        0 <= i < entries.len(),
        s.offset < i + 3,
        plays(s, entries, attrs, replies, end),
    ensures
        end == Ok::<Seq<(FuseEntryView, FuseAttr)>, i32>(
            told + told_from(s.adapter, entries, attrs, i),
        ),
    decreases entries.len() - i,
{
    let more = match replies[0] {
        FsReply::Attr(Ok(attr)) => told.push(
            (entry_at(entries[i], i), s.adapter.fuse_attr(attr)),
        ),
        _ => told,
    };
    let rest = told_from(s.adapter, entries, attrs, i + 1);
    if i + 1 < entries.len() {
        let s2 = PlusState { at: PlusAt::Each(entries, more, i + 1), ..s };
        lemma_each_is_told(s2, entries, attrs, more, i + 1, replies.drop_first(), end);
    }
    assert(more + rest =~= told + told_from(s.adapter, entries, attrs, i));
}

/// All entries after the offset are told.
proof fn lemma_rest_is_told(
    s: PlusState,
    entries: Seq<DirEntry>,
    attrs: Map<i64, FileAttr>,
    told: Seq<(FuseEntryView, FuseAttr)>,
    replies: Seq<FsReply>,
    end: Result<Seq<(FuseEntryView, FuseAttr)>, i32>,
)
    requires
        match s.each(entries, told, 0) {
            FsStepView::Next(s2) => plays(s2, entries, attrs, replies, end),
            FsStepView::Done(r) => r == Ok::<
                Result<Seq<(FuseEntryView, FuseAttr)>, i32>,
                crate::vfs::error::VfsErrorView,
            >(end),
        },
    ensures
        end == Ok::<Seq<(FuseEntryView, FuseAttr)>, i32>(
            told + told_from(s.adapter, entries, attrs, next_index(s.offset, 0)),
        ),
{
    let i = next_index(s.offset, 0);
    if i < entries.len() {
        let s2 = PlusState { at: PlusAt::Each(entries, told, i), ..s };
        lemma_each_is_told(s2, entries, attrs, told, i, replies, end);
    } else {
        assert(told =~= told + told_from(s.adapter, entries, attrs, i));
    }
}

/// The root and the entries are told.
proof fn lemma_dot_dot_is_told(
    s: PlusState,
    entries: Seq<DirEntry>,
    attrs: Map<i64, FileAttr>,
    told: Seq<(FuseEntryView, FuseAttr)>,
    replies: Seq<FsReply>,
    end: Result<Seq<(FuseEntryView, FuseAttr)>, i32>,
)
    requires
        s.offset <= 1,
        attrs.dom().contains(1),
        s.at == PlusAt::DotDot(entries, told),
        plays(s, entries, attrs, replies, end),
    ensures
        end == Ok::<Seq<(FuseEntryView, FuseAttr)>, i32>(
            told.push((dot_dot(), s.adapter.fuse_attr(attrs[1]))) + told_from(
                s.adapter,
                entries,
                attrs,
                0,
            ),
        ),
{
    let more = told.push((dot_dot(), s.adapter.fuse_attr(attrs[1])));
    lemma_rest_is_told(s, entries, attrs, more, replies.drop_first(), end);
}

/// A listing with attributes tells the directory itself, the root and the entries after the
/// offset, in order. An entry whose attributes cannot be read is left out, and shifts no offset.
pub proof fn law_plus_tells_the_listing(
    adapter: FuseAdapter,
    parent: u64,
    offset: u64,
    entries: Seq<DirEntry>,
    attrs: Map<i64, FileAttr>,
    replies: Seq<FsReply>,
    end: Result<Seq<(FuseEntryView, FuseAttr)>, i32>,
)
    requires
        attrs.dom().contains(parent as i64),
        attrs.dom().contains(1),
        plays(
            PlusState { adapter, parent, offset, at: PlusAt::Entries },
            entries,
            attrs,
            replies,
            end,
        ),
    ensures
        end == Ok::<Seq<(FuseEntryView, FuseAttr)>, i32>(
            plus_listing(adapter, parent, entries, attrs, offset as int),
        ),
{
    let s = PlusState { adapter, parent, offset, at: PlusAt::Entries };
    let r1 = replies.drop_first();
    let none = Seq::<(FuseEntryView, FuseAttr)>::empty();
    if offset == 0 {
        let s1 = PlusState { at: PlusAt::Dot(entries), ..s };
        assert(plays(s1, entries, attrs, r1, end));
        let told = seq![(dot(parent), adapter.fuse_attr(attrs[parent as i64]))];
        let s2 = PlusState { at: PlusAt::DotDot(entries, told), ..s };
        assert(plays(s2, entries, attrs, r1.drop_first(), end));
        lemma_dot_dot_is_told(s2, entries, attrs, told, r1.drop_first(), end);
        assert(end->Ok_0 =~= plus_listing(adapter, parent, entries, attrs, 0));
    } else if offset == 1 {
        let s2 = PlusState { at: PlusAt::DotDot(entries, none), ..s };
        assert(plays(s2, entries, attrs, r1, end));
        lemma_dot_dot_is_told(s2, entries, attrs, none, r1, end);
        assert(end->Ok_0 =~= plus_listing(adapter, parent, entries, attrs, 1));
    } else {
        lemma_rest_is_told(s, entries, attrs, none, r1, end);
        assert(end->Ok_0 =~= plus_listing(adapter, parent, entries, attrs, offset as int));
    }
}

/// Whether a list is the part of another whose offsets are after an offset, in the same order.
pub open spec fn is_later_part(
    part: Seq<(FuseEntryView, FuseAttr)>,
    all: Seq<(FuseEntryView, FuseAttr)>,
    offset: int,
) -> bool {
    let skipped = all.len() - part.len();
    &&& 0 <= skipped
    &&& part == all.skip(skipped)
    &&& forall|i: int| 0 <= i < skipped ==> (#[trigger] all[i]).0.offset <= offset
    &&& forall|i: int| skipped <= i < all.len() ==> (#[trigger] all[i]).0.offset > offset
}

/// The entries from an index on are the later part of those from the first on.
proof fn lemma_told_from(
    adapter: FuseAdapter,
    entries: Seq<DirEntry>,
    attrs: Map<i64, FileAttr>,
    i: int,
    j: int,
)
    requires
        0 <= i <= j,
        entries.len() < i64::MAX - 3,
    ensures
        is_later_part(
            told_from(adapter, entries, attrs, j),
            told_from(adapter, entries, attrs, i),
            j + 2,
        ),
    decreases entries.len() - i,
{
    let all = told_from(adapter, entries, attrs, i);
    let part = told_from(adapter, entries, attrs, j);
    if i < entries.len() {
        let rest = told_from(adapter, entries, attrs, i + 1);
        if i < j {
            lemma_told_from(adapter, entries, attrs, i + 1, j);
            if attrs.dom().contains(entries[i].ino) {
                assert forall|n: int| 0 < n < all.len() implies #[trigger] all[n] == rest[n - 1] by {}
                assert(part =~= all.skip(all.len() - part.len()));
            }
        } else {
            lemma_told_from(adapter, entries, attrs, i + 1, i + 1);
            if attrs.dom().contains(entries[i].ino) {
                assert forall|n: int| 0 < n < all.len() implies #[trigger] all[n] == rest[n - 1] by {}
            }
            assert(part =~= all.skip(0));
        }
    } else {
        assert(part =~= all.skip(0));
    }
}

/// What is told after an offset is the later part of what is told from the beginning: no entry is
/// told twice, and none is lost, when a listing is taken up.
pub proof fn law_plus_is_taken_up(
    adapter: FuseAdapter,
    parent: u64,
    entries: Seq<DirEntry>,
    attrs: Map<i64, FileAttr>,
    offset: int,
)
    requires
        0 <= offset,
        entries.len() < i64::MAX - 3,
    ensures
        is_later_part(
            plus_listing(adapter, parent, entries, attrs, offset),
            plus_listing(adapter, parent, entries, attrs, 0),
            offset,
        ),
{
    let all = plus_listing(adapter, parent, entries, attrs, 0);
    let part = plus_listing(adapter, parent, entries, attrs, offset);
    let rest = told_from(adapter, entries, attrs, 0);
    assert forall|n: int| 2 <= n < all.len() implies #[trigger] all[n] == rest[n - 2] by {}
    lemma_told_from(adapter, entries, attrs, 0, 0);
    if offset >= 2 {
        lemma_told_from(adapter, entries, attrs, 0, offset - 2);
    }
    assert(part =~= all.skip(all.len() - part.len()));
}

/// The reply to a request for a listing with attributes after an offset is the part of the reply
/// to one from the beginning that has later offsets.
pub proof fn law_readdirplus_after_an_offset(
    adapter: FuseAdapter,
    parent: u64,
    offset: u64,
    entries: Seq<DirEntry>,
    attrs: Map<i64, FileAttr>,
    replies: Seq<FsReply>,
    end: Result<Seq<(FuseEntryView, FuseAttr)>, i32>,
    first_replies: Seq<FsReply>,
    whole_end: Result<Seq<(FuseEntryView, FuseAttr)>, i32>,
)
    requires
        attrs.dom().contains(parent as i64),
        attrs.dom().contains(1),
        entries.len() < i64::MAX - 3,
        plays(
            PlusState { adapter, parent, offset, at: PlusAt::Entries },
            entries,
            attrs,
            replies,
            end,
        ),
        plays(
            PlusState { adapter, parent, offset: 0, at: PlusAt::Entries },
            entries,
            attrs,
            first_replies,
            whole_end,
        ),
    ensures
        end is Ok && whole_end is Ok && is_later_part(end->Ok_0, whole_end->Ok_0, offset as int),
{
    law_plus_tells_the_listing(adapter, parent, offset, entries, attrs, replies, end);
    law_plus_tells_the_listing(adapter, parent, 0, entries, attrs, first_replies, whole_end);
    law_plus_is_taken_up(adapter, parent, entries, attrs, offset as int);
}

/// The entries of a list with attributes.
pub open spec fn told_entries(told: Seq<(FuseEntryView, FuseAttr)>) -> Seq<FuseEntryView> {
    Seq::new(told.len(), |i: int| told[i].0)
}

/// Where all attributes can be read, all entries from an index on are told.
proof fn lemma_all_told(
    adapter: FuseAdapter,
    entries: Seq<DirEntry>,
    attrs: Map<i64, FileAttr>,
    i: int,
)
    requires
        0 <= i,
        forall|n: int|
            0 <= n < entries.len() ==> attrs.dom().contains((#[trigger] entries[n]).ino),
    ensures
        told_entries(told_from(adapter, entries, attrs, i)) == Seq::new(
            (if i < entries.len() {
                entries.len() - i
            } else {
                0
            }) as nat,
            |n: int| entry_at(entries[i + n], i + n),
        ),
    decreases entries.len() - i,
{
    let told = told_from(adapter, entries, attrs, i);
    if i < entries.len() {
        lemma_all_told(adapter, entries, attrs, i + 1);
        let rest = told_from(adapter, entries, attrs, i + 1);
        assert(told_entries(told) =~= seq![entry_at(entries[i], i)] + told_entries(rest));
    }
    assert(told_entries(told) =~= Seq::new(
        (if i < entries.len() {
            entries.len() - i
        } else {
            0
        }) as nat,
        |n: int| entry_at(entries[i + n], i + n),
    ));
}

/// Where all attributes can be read, a listing with attributes tells the entries that the listing
/// without them tells.
pub proof fn law_readable_plus_is_the_listing(
    adapter: FuseAdapter,
    parent: u64,
    entries: Seq<DirEntry>,
    attrs: Map<i64, FileAttr>,
    offset: int,
)
    requires
        0 <= offset,
        forall|n: int|
            0 <= n < entries.len() ==> attrs.dom().contains((#[trigger] entries[n]).ino),
    ensures
        told_entries(plus_listing(adapter, parent, entries, attrs, offset)) == listing(
            parent,
            entries,
            offset,
        ),
{
    lemma_all_told(adapter, entries, attrs, 0);
    let rest = told_from(adapter, entries, attrs, 0);
    let part = plus_listing(adapter, parent, entries, attrs, offset);
    if offset <= 1 {
        let head = part.take(part.len() - rest.len());
        assert(part =~= head + rest);
        assert(told_entries(part) =~= told_entries(head) + told_entries(rest));
    } else {
        lemma_all_told(adapter, entries, attrs, offset - 2);
    }
    assert(told_entries(part) =~= listing(parent, entries, offset));
}

} // verus!
