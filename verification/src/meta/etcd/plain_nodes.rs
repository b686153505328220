//! Nodes with standard permissions.

use crate::meta::database::nodes::{STANDARD_DIR_MODE, STANDARD_FILE_MODE};
use crate::meta::entities::{EntryType, EtcdDirChildren, EtcdEntryInfo, EtcdForwardEntry};
use crate::meta::etcd::kv::{
    children_meaning, copy_names, distinct, lemma_written_push, name_set, runs, views, with_name,
    Check, Key, KeyView, Kv, Meaning, Operation, Reply, Request, RequestView, Shape, Value, Write,
    WriteView,
};
use crate::meta::etcd::laws::sane;
use crate::meta::etcd::store::{
    as_read, check_as_read, disturbed, make_disturbed, COMMIT_TRIES,
};
use crate::meta::permission::Permission;
use crate::meta::store::{detailed, ErrorView, MetaError, Step, StepView};
use vstd::prelude::*;
use vstd::string::*;

verus! {

/// The error when a request failed, under a label.
pub open spec fn labelled_failure(label: Seq<char>, reply: Reply) -> ErrorView {
    match reply {
        Reply::Malformed(text) => ErrorView::Serialization(text@),
        Reply::Refused(e) => e@,
        Reply::Failed(text) => ErrorView::Config(label + text@),
        _ => ErrorView::Config(label),
    }
}

/// The error when a request failed, under a label.
fn labelled_failed(label: &str, reply: Reply) -> (r: MetaError)
    ensures
        r@ == labelled_failure(label@, reply),
{
    match reply {
        Reply::Malformed(text) => MetaError::Serialization(text),
        Reply::Refused(e) => e,
        Reply::Failed(text) => MetaError::Config(detailed(label, text.as_str())),
        _ => MetaError::Config(String::from_str(label)),
    }
}

/// The metadata of a node with standard permissions.
pub open spec fn plain_info(kind: EntryType, now: i64) -> EtcdEntryInfo {
    match kind {
        EntryType::File => EtcdEntryInfo {
            is_file: true,
            size: Some(0),
            version: Some(0),
            permission: Permission { mode: STANDARD_FILE_MODE, uid: 0, gid: 0 },
            access_time: now,
            modify_time: now,
            create_time: now,
            nlink: 1,
        },
        EntryType::Directory => EtcdEntryInfo {
            is_file: false,
            size: None,
            version: None,
            permission: Permission { mode: STANDARD_DIR_MODE, uid: 0, gid: 0 },
            access_time: now,
            modify_time: now,
            create_time: now,
            nlink: 2,
        },
    }
}

/// The metadata of a node with standard permissions.
fn make_plain_info(kind: EntryType, now: i64) -> (r: EtcdEntryInfo)
    ensures
        r == plain_info(kind, now),
{
    match kind {
        EntryType::File => EtcdEntryInfo {
            is_file: true,
            size: Some(0),
            version: Some(0),
            permission: Permission::new(STANDARD_FILE_MODE, 0, 0),
            access_time: now,
            modify_time: now,
            create_time: now,
            nlink: 1,
        },
        EntryType::Directory => EtcdEntryInfo {
            is_file: false,
            size: None,
            version: None,
            permission: Permission::new(STANDARD_DIR_MODE, 0, 0),
            access_time: now,
            modify_time: now,
            create_time: now,
            nlink: 2,
        },
    }
}

/// The creation of a node. All keys are written in one transaction, on condition that the names in
/// the parent are as they were read.
pub struct PlainCreate {
    pub parent: i64,
    pub name: String,
    pub kind: EntryType,
    pub now: i64,
    /// How often the creation was begun before.
    pub retry: u32,
    pub phase: PlainPhase,
}

/// How far such a creation has come.
pub enum PlainPhase {
    /// The metadata of the parent are read.
    Parent,
    /// The names in the parent are read.
    Names,
    /// The names before `at` have been looked up; `taken` tells whether the new name was found.
    Entries { names: Vec<String>, at: usize, taken: bool },
    /// A number is asked for.
    Id,
    /// The names in the parent are read again.
    Siblings(i64),
    /// The keys are written, with the names in the parent as they are to be.
    Commit { ino: i64, names: EtcdDirChildren, revision: Option<i64> },
}

/// The view of how far such a creation has come.
pub enum PlainAt {
    Parent,
    Names,
    Entries { names: Seq<String>, at: int, taken: bool },
    Id,
    Siblings(i64),
    Commit { ino: i64, names: Meaning, revision: Option<i64> },
}

/// The view of such a creation.
pub struct PlainState {
    pub parent: i64,
    pub name: Seq<char>,
    pub kind: EntryType,
    pub now: i64,
    pub retry: u32,
    pub at: PlainAt,
}

impl PlainState {
    /// The state elsewhere.
    pub open spec fn to(self, at: PlainAt) -> PlainState {
        PlainState { at, ..self }
    }

    /// Where a creation begins: the root is there without a look.
    pub open spec fn first(parent: i64) -> PlainAt {
        if parent == 1 {
            PlainAt::Names
        } else {
            PlainAt::Parent
        }
    }

    /// The creation is begun anew, unless it was begun often enough.
    pub open spec fn again(self) -> StepView<PlainState, i64> {
        if self.retry + 1 < COMMIT_TRIES {
            StepView::Next(
                PlainState {
                    retry: (self.retry + 1) as u32,
                    at: PlainState::first(self.parent),
                    ..self
                },
            )
        } else {
            StepView::Done(Err(disturbed()))
        }
    }

    /// The writes of a creation under the number `ino`.
    pub open spec fn writes(self, ino: i64, names: Meaning) -> Seq<WriteView> {
        let both = Seq::empty().push(
            WriteView::Put(
                KeyView::Forward(self.parent, self.name),
                Meaning::Forward {
                    parent: self.parent,
                    name: self.name,
                    inode: ino,
                    is_file: self.kind == EntryType::File,
                },
            ),
        ).push(
            WriteView::Put(
                KeyView::Entry(ino),
                Meaning::Entry(plain_info(self.kind, self.now)),
            ),
        );
        let more = match self.kind {
            EntryType::Directory => both.push(
                WriteView::Put(
                    KeyView::Children(ino),
                    Meaning::Children { inode: ino, names: Set::empty() },
                ),
            ),
            EntryType::File => both,
        };
        more.push(WriteView::Put(KeyView::Children(self.parent), names))
    }

    /// The search goes on with the next name, or ends.
    pub open spec fn search(self, names: Seq<String>, at: int, taken: bool) -> StepView<
        PlainState,
        i64,
    > {
        if at < names.len() {
            StepView::Next(self.to(PlainAt::Entries { names, at, taken }))
        } else if taken {
            StepView::Done(Err(ErrorView::AlreadyExists { parent: self.parent, name: self.name }))
        } else {
            StepView::Next(self.to(PlainAt::Id))
        }
    }
}

impl PlainCreate {
    /// Starts a creation. The root is there without a look.
    pub fn start(parent: i64, name: String, kind: EntryType, now: i64) -> (r: PlainCreate)
        ensures
            r.state() == (PlainState {
                parent,
                name: name@,
                kind,
                now,
                retry: 0,
                at: PlainState::first(parent),
            }),
            r.ready(),
    {
        let phase = if parent == 1 {
            PlainPhase::Names
        } else {
            PlainPhase::Parent
        };
        PlainCreate { parent, name, kind, now, retry: 0, phase }
    }
}

impl Operation for PlainCreate {
    type State = PlainState;

    type Output = i64;

    type Shown = i64;

    open spec fn state(self) -> PlainState {
        PlainState {
            parent: self.parent,
            name: self.name@,
            kind: self.kind,
            now: self.now,
            retry: self.retry,
            at: match self.phase {
                PlainPhase::Parent => PlainAt::Parent,
                PlainPhase::Names => PlainAt::Names,
                PlainPhase::Entries { names, at, taken } => PlainAt::Entries {
                    names: names@,
                    at: at as int,
                    taken,
                },
                PlainPhase::Id => PlainAt::Id,
                PlainPhase::Siblings(ino) => PlainAt::Siblings(ino),
                PlainPhase::Commit { ino, names, revision } => PlainAt::Commit {
                    ino,
                    names: children_meaning(names),
                    revision,
                },
            },
        }
    }

    open spec fn shown(out: i64) -> i64 {
        out
    }

    open spec fn ready(self) -> bool {
        self.phase matches PlainPhase::Commit { names, .. } ==> distinct(names.children@)
    }

    open spec fn asks(s: PlainState) -> RequestView {
        match s.at {
            PlainAt::Parent => RequestView::Get(KeyView::Entry(s.parent), Shape::Entry),
            PlainAt::Names => RequestView::Get(KeyView::Children(s.parent), Shape::Children),
            PlainAt::Entries { names, at, taken } => RequestView::Get(
                KeyView::Forward(
                    s.parent,
                    if 0 <= at < names.len() {
                        names[at]@
                    } else {
                        Seq::empty()
                    },
                ),
                Shape::Forward,
            ),
            PlainAt::Id => RequestView::NewId,
            PlainAt::Siblings(_) => RequestView::Get(KeyView::Children(s.parent), Shape::Children),
            PlainAt::Commit { ino, names, revision } => RequestView::Commit {
                checks: seq![as_read(KeyView::Children(s.parent), revision)],
                writes: s.writes(ino, names),
            },
        }
    }

    open spec fn after(s: PlainState, reply: Reply) -> StepView<PlainState, i64> {
        match s.at {
            PlainAt::Parent => match reply {
                Reply::Value(Some((Value::Entry(info), _))) => if info.is_file {
                    StepView::Done(Err(ErrorView::ParentNotFound(s.parent)))
                } else {
                    StepView::Next(s.to(PlainAt::Names))
                },
                Reply::Malformed(text) => StepView::Done(Err(ErrorView::Serialization(text@))),
                _ => StepView::Done(Err(ErrorView::ParentNotFound(s.parent))),
            },
            PlainAt::Names => match reply {
                Reply::Value(Some((Value::Children(c), _))) => s.search(c.children@, 0, false),
                Reply::Malformed(text) => StepView::Done(Err(ErrorView::Serialization(text@))),
                _ => StepView::Next(s.to(PlainAt::Id)),
            },
            PlainAt::Entries { names, at, taken } => if !(0 <= at < names.len()) {
                s.search(names, names.len() as int, taken)
            } else {
                match reply {
                    Reply::Value(Some((Value::Forward(_), _))) => s.search(
                        names,
                        at + 1,
                        taken || names[at]@ == s.name,
                    ),
                    Reply::Malformed(text) => StepView::Done(Err(ErrorView::Serialization(text@))),
                    _ => s.search(names, at + 1, taken),
                }
            },
            PlainAt::Id => match reply {
                Reply::Id(ino) => StepView::Next(s.to(PlainAt::Siblings(ino))),
                _ => StepView::Done(Err(labelled_failure(Seq::empty(), reply))),
            },
            PlainAt::Siblings(ino) => match reply {
                Reply::Value(Some((Value::Children(c), revision))) => StepView::Next(
                    s.to(
                        PlainAt::Commit {
                            ino,
                            names: Meaning::Children {
                                inode: c.inode,
                                names: name_set(c.children@).insert(s.name),
                            },
                            revision: Some(revision),
                        },
                    ),
                ),
                Reply::Value(None) => StepView::Next(
                    s.to(
                        PlainAt::Commit {
                            ino,
                            names: Meaning::Children {
                                inode: s.parent,
                                names: Set::empty().insert(s.name),
                            },
                            revision: None,
                        },
                    ),
                ),
                _ => StepView::Done(
                    Err(labelled_failure("Failed to get parent directory children: "@, reply)),
                ),
            },
            PlainAt::Commit { ino, .. } => match reply {
                Reply::Committed(true) => StepView::Done(Ok(ino)),
                Reply::Committed(false) => s.again(),
                _ => StepView::Done(
                    Err(labelled_failure("Failed to create forward index: "@, reply)),
                ),
            },
        }
    }

    fn request(&self) -> (r: Request) {
        match &self.phase {
            PlainPhase::Parent => Request::Get(Key::Entry(self.parent), Shape::Entry),
            PlainPhase::Names => Request::Get(Key::Children(self.parent), Shape::Children),
            PlainPhase::Entries { names, at, .. } => {
                let name = if *at < names.len() {
                    names[*at].clone()
                } else {
                    String::new()
                };
                Request::Get(Key::Forward { parent: self.parent, name }, Shape::Forward)
            },
            PlainPhase::Id => Request::NewId,
            PlainPhase::Siblings(_) => Request::Get(Key::Children(self.parent), Shape::Children),
            PlainPhase::Commit { ino, names, revision } => {
                let mut checks: Vec<Check> = Vec::new();
                checks.push(check_as_read(Key::Children(self.parent), *revision));
                let mut writes: Vec<Write> = Vec::new();
                writes.push(
                    Write::Put(
                        Key::Forward { parent: self.parent, name: self.name.clone() },
                        Value::Forward(
                            EtcdForwardEntry {
                                parent_inode: self.parent,
                                name: self.name.clone(),
                                inode: *ino,
                                is_file: self.kind == EntryType::File,
                            },
                        ),
                    ),
                );
                writes.push(
                    Write::Put(
                        Key::Entry(*ino),
                        Value::Entry(make_plain_info(self.kind, self.now)),
                    ),
                );
                if self.kind == EntryType::Directory {
                    let children: Vec<String> = Vec::new();
                    assert(name_set(children@) =~= Set::empty());
                    writes.push(
                        Write::Put(
                            Key::Children(*ino),
                            Value::Children(EtcdDirChildren { inode: *ino, children }),
                        ),
                    );
                }
                writes.push(
                    Write::Put(
                        Key::Children(self.parent),
                        Value::Children(
                            EtcdDirChildren {
                                inode: names.inode,
                                children: copy_names(&names.children),
                            },
                        ),
                    ),
                );
                assert(views(checks@) =~= Self::asks(self.state())->checks);
                assert(views(writes@) =~= Self::asks(self.state())->writes);
                Request::Commit { checks, writes }
            },
        }
    }

    fn resume(self, reply: Reply) -> (r: Step<Self, i64>) {
        let PlainCreate { parent, name, kind, now, retry, phase } = self;
        let mut tries: u32 = retry;
        let next = match phase {
            PlainPhase::Parent => match reply {
                Reply::Value(Some((Value::Entry(info), _))) => {
                    if info.is_file {
                        return Step::Done(Err(MetaError::ParentNotFound(parent)));
                    }
                    PlainPhase::Names
                },
                Reply::Malformed(text) => return Step::Done(Err(MetaError::Serialization(text))),
                _ => return Step::Done(Err(MetaError::ParentNotFound(parent))),
            },
            PlainPhase::Names => match reply {
                Reply::Value(Some((Value::Children(c), _))) => {
                    if c.children.len() > 0 {
                        PlainPhase::Entries { names: c.children, at: 0, taken: false }
                    } else {
                        PlainPhase::Id
                    }
                },
                Reply::Malformed(text) => return Step::Done(Err(MetaError::Serialization(text))),
                _ => PlainPhase::Id,
            },
            PlainPhase::Entries { names, at, taken } => {
                let mut taken = taken;
                let mut after: usize = names.len();
                if at < names.len() {
                    match reply {
                        Reply::Value(Some((Value::Forward(_), _))) => {
                            taken = taken || names[at] == name;
                        },
                        Reply::Malformed(text) => {
                            return Step::Done(Err(MetaError::Serialization(text)));
                        },
                        _ => {},
                    }
                    after = at + 1;
                }
                if after < names.len() {
                    PlainPhase::Entries { names, at: after, taken }
                } else if taken {
                    return Step::Done(Err(MetaError::AlreadyExists { parent, name }));
                } else {
                    PlainPhase::Id
                }
            },
            PlainPhase::Id => match reply {
                Reply::Id(ino) => PlainPhase::Siblings(ino),
                _ => {
                    proof {
                        reveal_strlit("");
                        assert(""@ =~= Seq::<char>::empty());
                    }
                    return Step::Done(Err(labelled_failed("", reply)));
                },
            },
            PlainPhase::Siblings(ino) => match reply {
                Reply::Value(Some((Value::Children(c), revision))) => {
                    let children = with_name(&c.children, &name);
                    PlainPhase::Commit {
                        ino,
                        names: EtcdDirChildren { inode: c.inode, children },
                        revision: Some(revision),
                    }
                },
                Reply::Value(None) => {
                    let none: Vec<String> = Vec::new();
                    assert(name_set(none@) =~= Set::empty());
                    let children = with_name(&none, &name);
                    PlainPhase::Commit {
                        ino,
                        names: EtcdDirChildren { inode: parent, children },
                        revision: None,
                    }
                },
                _ => return Step::Done(
                    Err(labelled_failed("Failed to get parent directory children: ", reply)),
                ),
            },
            PlainPhase::Commit { ino, .. } => match reply {
                Reply::Committed(true) => return Step::Done(Ok(ino)),
                Reply::Committed(false) => {
                    if retry >= COMMIT_TRIES - 1 {
                        return Step::Done(Err(make_disturbed()));
                    }
                    tries = retry + 1;
                    if parent == 1 {
                        PlainPhase::Names
                    } else {
                        PlainPhase::Parent
                    }
                },
                _ => return Step::Done(
                    Err(labelled_failed("Failed to create forward index: ", reply)),
                ),
            },
        };
        Step::Next(PlainCreate { parent, name, kind, now, retry: tries, phase: next })
    }
}

/// What a creation makes of the names in the parent.
pub open spec fn plain_names(s: PlainState, kv: Kv) -> Meaning {
    match kv.get(KeyView::Children(s.parent)) {
        Some(Meaning::Children { inode, names }) => Meaning::Children {
            inode,
            names: names.insert(s.name),
        },
        _ => Meaning::Children { inode: s.parent, names: Set::empty().insert(s.name) },
    }
}

/// What a creation that succeeds makes of the service.
pub open spec fn plain_written(s: PlainState, kv: Kv, ino: i64) -> Kv {
    let rev = kv.revision + 1;
    let both = kv.map.insert(
        KeyView::Forward(s.parent, s.name),
        (
            Meaning::Forward {
                parent: s.parent,
                name: s.name,
                inode: ino,
                is_file: s.kind == EntryType::File,
            },
            rev,
        ),
    ).insert(KeyView::Entry(ino), (Meaning::Entry(plain_info(s.kind, s.now)), rev));
    let more = match s.kind {
        EntryType::Directory => both.insert(
            KeyView::Children(ino),
            (Meaning::Children { inode: ino, names: Set::empty() }, rev),
        ),
        EntryType::File => both,
    };
    Kv {
        map: more.insert(KeyView::Children(s.parent), (plain_names(s, kv), rev)),
        revision: rev,
    }
}

/// The transaction of a creation makes of the service what `plain_written` says.
pub proof fn lemma_plain_commit(s: PlainState, kv: Kv, ino: i64)
    ensures
        kv.commit(s.writes(ino, plain_names(s, kv))) == plain_written(s, kv, ino),
{
    let rev = kv.revision + 1;
    let ws = s.writes(ino, plain_names(s, kv));
    let none = Seq::<WriteView>::empty();
    lemma_written_push(kv.map, none, ws[0], rev);
    lemma_written_push(kv.map, none.push(ws[0]), ws[1], rev);
    let two = none.push(ws[0]).push(ws[1]);
    lemma_written_push(kv.map, two, ws[2], rev);
    if s.kind == EntryType::Directory {
        lemma_written_push(kv.map, two.push(ws[2]), ws[3], rev);
    }
}

/// Whether a creation from a state where the search may begin does what it should:
/// a name that is taken is refused, and any other is written with the number that is answered.
pub open spec fn plain_end(
    s: PlainState,
    kv: Kv,
    taken: bool,
    end: (Kv, Result<i64, ErrorView>),
) -> bool {
    if taken {
        end == (
            kv,
            Err::<i64, ErrorView>(ErrorView::AlreadyExists { parent: s.parent, name: s.name }),
        )
    } else {
        end.1 matches Ok(ino) && end.0 == plain_written(s, kv, ino)
    }
}

/// A creation from the point where it asks for a number.
proof fn lemma_plain_tail(
    s: PlainState,
    kv: Kv,
    trace: Seq<(Reply, Kv)>,
    end: (Kv, Result<i64, ErrorView>),
)
    requires
        sane(kv),
        s.at is Id,
        runs::<PlainCreate>(s, kv, trace, end),
    ensures
        plain_end(s, kv, false, end),
{
    reveal_with_fuel(runs, 4);
    let k = KeyView::Children(s.parent);
    assert(kv.map.dom().contains(k) ==> kv.map[k].0 is Children);
    let ino = match trace[0].0 {
        Reply::Id(ino) => ino,
        _ => 0,
    };
    lemma_plain_commit(s, kv, ino);
    match PlainCreate::after(s.to(PlainAt::Siblings(ino)), trace[1].0) {
        StepView::Next(s2) => {
            let cs = PlainCreate::asks(s2)->checks;
            assert(kv.holds(cs[0]));
            assert(kv.all_hold(cs));
            assert(s2.writes(ino, plain_names(s, kv)) == s.writes(ino, plain_names(s, kv)));
        },
        _ => {},
    }
}

/// Whether the new name is among the names from an index on, and has an entry.
pub open spec fn name_taken(s: PlainState, kv: Kv, names: Seq<String>, from: int) -> bool {
    kv.get(KeyView::Forward(s.parent, s.name)) is Some && exists|j: int|
        from <= j < names.len() && #[trigger] names[j]@ == s.name
}

/// A creation from the middle of its search.
proof fn lemma_plain_search(
    s: PlainState,
    kv: Kv,
    names: Seq<String>,
    at: int,
    taken: bool,
    trace: Seq<(Reply, Kv)>,
    end: (Kv, Result<i64, ErrorView>),
)
    requires
        sane(kv),
        0 <= at < names.len(),
        s.at == (PlainAt::Entries { names, at, taken }),
        runs::<PlainCreate>(s, kv, trace, end),
    ensures
        plain_end(s, kv, taken || name_taken(s, kv, names, at), end),
    decreases names.len() - at,
{
    let k = KeyView::Forward(s.parent, names[at]@);
    assert(kv.map.dom().contains(k) ==> kv.map[k].0 is Forward);
    let hit = kv.map.dom().contains(k) && names[at]@ == s.name;
    let now_taken = taken || hit;
    assert(name_taken(s, kv, names, at) <==> hit || name_taken(s, kv, names, at + 1)) by {
        if name_taken(s, kv, names, at) && !hit {
            let j = choose|j: int| at <= j < names.len() && #[trigger] names[j]@ == s.name;
            assert(j != at);
        }
    }
    if at + 1 < names.len() {
        let s2 = s.to(PlainAt::Entries { names, at: at + 1, taken: now_taken });
        assert(runs::<PlainCreate>(s2, kv, trace.drop_first(), end));
        lemma_plain_search(s2, kv, names, at + 1, now_taken, trace.drop_first(), end);
    } else if !now_taken {
        let s2 = s.to(PlainAt::Id);
        assert(runs::<PlainCreate>(s2, kv, trace.drop_first(), end));
        lemma_plain_tail(s2, kv, trace.drop_first(), end);
    }
}

/// A creation refuses a parent that is no directory, then a
/// name that the directory lists and that has an entry, and makes the node otherwise.
pub proof fn law_plain_create_runs(
    kv: Kv,
    parent: i64,
    name: Seq<char>,
    kind: EntryType,
    now: i64,
    trace: Seq<(Reply, Kv)>,
    end: (Kv, Result<i64, ErrorView>),
)
    requires
        sane(kv),
        runs::<PlainCreate>(
            PlainState {
                parent,
                name,
                kind,
                now,
                retry: 0,
                at: PlainState::first(parent),
            },
            kv,
            trace,
            end,
        ),
    ensures
        ({
            let is_dir = parent == 1 || (match kv.get(KeyView::Entry(parent)) {
                Some(Meaning::Entry(info)) => !info.is_file,
                _ => false,
            });
            let taken = (match kv.get(KeyView::Children(parent)) {
                Some(Meaning::Children { inode, names }) => names.contains(name),
                _ => false,
            }) && kv.get(KeyView::Forward(parent, name)) is Some;
            if !is_dir {
                end == (kv, Err::<i64, ErrorView>(ErrorView::ParentNotFound(parent)))
            } else {
                plain_end(
                    PlainState { parent, name, kind, now, retry: 0, at: PlainAt::Names },
                    kv,
                    taken,
                    end,
                )
            }
        }),
{
    let k = KeyView::Entry(parent);
    assert(kv.map.dom().contains(k) ==> kv.map[k].0 is Entry);
    let kc = KeyView::Children(parent);
    assert(kv.map.dom().contains(kc) ==> kv.map[kc].0 is Children);
    let s = PlainState { parent, name, kind, now, retry: 0, at: PlainAt::Names };
    let rest = if parent == 1 {
        trace
    } else {
        trace.drop_first()
    };
    let is_dir = parent == 1 || (match kv.get(KeyView::Entry(parent)) {
        Some(Meaning::Entry(info)) => !info.is_file,
        _ => false,
    });
    if is_dir {
        assert(runs::<PlainCreate>(s, kv, rest, end));
        if kv.map.dom().contains(kc) {
            assert(rest[0].0 is Value);
            if let Reply::Value(Some((Value::Children(c), rev))) = rest[0].0 {
                let names = c.children@;
                assert(name_set(names).contains(name) <==> exists|j: int|
                    0 <= j < names.len() && #[trigger] names[j]@ == name);
                if names.len() > 0 {
                    let s2 = s.to(PlainAt::Entries { names, at: 0, taken: false });
                    assert(runs::<PlainCreate>(s2, kv, rest.drop_first(), end));
                    lemma_plain_search(s2, kv, names, 0, false, rest.drop_first(), end);
                } else {
                    let s2 = s.to(PlainAt::Id);
                    assert(runs::<PlainCreate>(s2, kv, rest.drop_first(), end));
                    lemma_plain_tail(s2, kv, rest.drop_first(), end);
                }
            }
        } else {
            let s2 = s.to(PlainAt::Id);
            assert(runs::<PlainCreate>(s2, kv, rest.drop_first(), end));
            lemma_plain_tail(s2, kv, rest.drop_first(), end);
        }
    }
}

} // verus!
