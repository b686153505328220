//! Optimistic updates: a value is read with its revision, and the new value is
//! written only if the key was not written since.

use crate::meta::entities::EtcdDirChildren;
use crate::meta::etcd::keys::etcd_children_key;
use crate::meta::etcd::kv::{
    distinct, name_set, views, with_name, without_name, Check, CheckView, Key, KeyView, Meaning, Operation,
    Reply, Request, RequestView, Shape, Value, Write, WriteView,
};
use crate::meta::store::{detailed, ErrorView, MetaError, Step, StepView};
use crate::text::{dec, i64_text};
use vstd::prelude::*;
use vstd::string::*;

verus! {

/// A change of the names in a directory.
#[derive(Debug, Clone)]
pub enum Change {
    /// A name is added.
    Add(String),
    /// A name is taken out.
    Remove(String),
    /// A name is taken out and another is added.
    Replace { old_name: String, new_name: String },
}

impl Change {
    /// The names after the change.
    pub open spec fn applied(self, names: Set<Seq<char>>) -> Set<Seq<char>> {
        match self {
            Change::Add(name) => names.insert(name@),
            Change::Remove(name) => names.remove(name@),
            Change::Replace { old_name, new_name } => names.remove(old_name@).insert(new_name@),
        }
    }

    /// The names after the change.
    pub fn apply(&self, names: &Vec<String>) -> (r: Vec<String>)
        ensures
            name_set(r@) == self.applied(name_set(names@)),
            distinct(names@) ==> distinct(r@),
    {
        match self {
            Change::Add(name) => with_name(names, name),
            Change::Remove(name) => without_name(names, name),
            Change::Replace { old_name, new_name } => {
                let fewer = without_name(names, old_name);
                with_name(&fewer, new_name)
            },
        }
    }
}

/// The error of a failure, with a label.
pub open spec fn internal(label: Seq<char>, reply: Reply) -> ErrorView {
    match reply {
        Reply::Failed(text) => ErrorView::Internal(label + text@),
        Reply::Malformed(text) => ErrorView::Internal(label + text@),
        _ => ErrorView::Internal(label),
    }
}

/// The error of a failure, with a label.
pub fn internal_error(label: &str, reply: Reply) -> (r: MetaError)
    ensures
        r@ == internal(label@, reply),
{
    match reply {
        Reply::Failed(text) => MetaError::Internal(detailed(label, text.as_str())),
        Reply::Malformed(text) => MetaError::Internal(detailed(label, text.as_str())),
        _ => MetaError::Internal(String::from_str(label)),
    }
}

/// How the errors of an update are worded.
#[derive(Debug, Clone, Copy, PartialEq, Eq, Structural)]
pub enum Wording {
    /// By the key of the names.
    Key,
    /// By the directory.
    Parent,
}

/// Update of the names in a directory, tried again while others write the same key.
pub struct UpdateChildren {
    pub parent: i64,
    pub change: Change,
    pub max_retries: usize,
    pub wording: Wording,
    pub retry: usize,
    pub phase: UpdatePhase,
}

/// How far an update has come.
pub enum UpdatePhase {
    /// The names are read.
    Read,
    /// The changed names are written, if the key was not written since the
    /// revision; revision zero stands for a key that does not exist.
    Write { names: Vec<String>, revision: i64 },
}

impl UpdateChildren {
    /// The update in its first state; without tries it ends with an error.
    pub fn start(parent: i64, change: Change, max_retries: usize, wording: Wording) -> (r: Step<
        UpdateChildren,
        (),
    >)
        ensures
            max_retries > 0 ==> r == Step::<UpdateChildren, ()>::Next(
                UpdateChildren {
                    parent,
                    change,
                    max_retries,
                    wording,
                    retry: 0,
                    phase: UpdatePhase::Read,
                },
            ),
            max_retries == 0 ==> (r matches Step::Done(Err(e)) && e@ == ErrorView::Internal(
                "CAS update failed: unreachable"@,
            )),
    {
        if max_retries == 0 {
            Step::Done(
                Err(MetaError::Internal(String::from_str("CAS update failed: unreachable"))),
            )
        } else {
            Step::Next(
                UpdateChildren {
                    parent,
                    change,
                    max_retries,
                    wording,
                    retry: 0,
                    phase: UpdatePhase::Read,
                },
            )
        }
    }
}

/// The state of an update, with the names as a set.
pub enum UpdateState {
    Read { op: UpdateShape, retry: int },
    Write { op: UpdateShape, retry: int, names: Set<Seq<char>>, revision: i64 },
}

/// What an update is to do.
pub struct UpdateShape {
    pub parent: i64,
    pub change: Change,
    pub max_retries: int,
    pub wording: Wording,
}

impl UpdateShape {
    /// The label of a failed read.
    pub open spec fn read_label(self) -> Seq<char> {
        match self.wording {
            Wording::Key => "Failed to get key for CAS: "@,
            Wording::Parent => "Failed to get children for CAS: "@,
        }
    }

    /// The error after the last try.
    pub open spec fn exhausted(self) -> ErrorView {
        match self.wording {
            Wording::Key => ErrorView::Internal(
                "CAS max retries exceeded for "@ + KeyView::Children(self.parent).text(),
            ),
            Wording::Parent => ErrorView::Internal(
                "CAS max retries exceeded for parent "@ + dec(self.parent as int),
            ),
        }
    }

    /// The condition under which the names are written.
    pub open spec fn condition(self, revision: i64) -> CheckView {
        if revision == 0 {
            CheckView::Absent(KeyView::Children(self.parent))
        } else {
            CheckView::Unchanged(KeyView::Children(self.parent), revision)
        }
    }
}

impl Operation for UpdateChildren {
    type State = UpdateState;

    type Output = ();

    type Shown = ();

    open spec fn state(self) -> UpdateState {
        let op = UpdateShape {
            parent: self.parent,
            change: self.change,
            max_retries: self.max_retries as int,
            wording: self.wording,
        };
        match self.phase {
            UpdatePhase::Read => UpdateState::Read { op, retry: self.retry as int },
            UpdatePhase::Write { names, revision } => UpdateState::Write {
                op,
                retry: self.retry as int,
                names: name_set(names@),
                revision,
            },
        }
    }

    open spec fn shown(out: ()) -> () {
        out
    }

    open spec fn ready(self) -> bool {
        self.phase matches UpdatePhase::Write { names, .. } ==> distinct(names@)
    }

    open spec fn asks(s: UpdateState) -> RequestView {
        match s {
            UpdateState::Read { op, retry } => RequestView::Get(
                KeyView::Children(op.parent),
                Shape::Children,
            ),
            UpdateState::Write { op, retry, names, revision } => RequestView::Commit {
                checks: seq![op.condition(revision)],
                writes: seq![
                    WriteView::Put(
                        KeyView::Children(op.parent),
                        Meaning::Children { inode: op.parent, names: op.change.applied(names) },
                    ),
                ],
            },
        }
    }

    open spec fn after(s: UpdateState, reply: Reply) -> StepView<UpdateState, ()> {
        match s {
            UpdateState::Read { op, retry } => match reply {
                Reply::Value(Some((Value::Children(c), revision))) => StepView::Next(
                    UpdateState::Write { op, retry, names: name_set(c.children@), revision },
                ),
                Reply::Value(_) => StepView::Next(
                    UpdateState::Write { op, retry, names: Set::empty(), revision: 0 },
                ),
                Reply::Malformed(_) => StepView::Done(
                    Err(internal("Failed to parse children: "@, reply)),
                ),
                _ => StepView::Done(Err(internal(op.read_label(), reply))),
            },
            UpdateState::Write { op, retry, names, revision } => match reply {
                Reply::Committed(true) => StepView::Done(Ok(())),
                Reply::Committed(false) => if retry + 1 < op.max_retries {
                    StepView::Next(UpdateState::Read { op, retry: retry + 1 })
                } else {
                    StepView::Done(Err(op.exhausted()))
                },
                Reply::Malformed(_) => StepView::Done(
                    Err(internal("Failed to serialize children: "@, reply)),
                ),
                _ => StepView::Done(Err(internal("CAS transaction failed: "@, reply))),
            },
        }
    }

    fn request(&self) -> (r: Request) {
        match &self.phase {
            UpdatePhase::Read => Request::Get(Key::Children(self.parent), Shape::Children),
            UpdatePhase::Write { names, revision } => {
                let check = if *revision == 0 {
                    Check::Absent(Key::Children(self.parent))
                } else {
                    Check::Unchanged(Key::Children(self.parent), *revision)
                };
                let children = self.change.apply(names);
                let mut checks: Vec<Check> = Vec::new();
                checks.push(check);
                let mut writes: Vec<Write> = Vec::new();
                writes.push(
                    Write::Put(
                        Key::Children(self.parent),
                        Value::Children(EtcdDirChildren { inode: self.parent, children }),
                    ),
                );
                let r = Request::Commit { checks, writes };
                assert(views(checks@) =~= Self::asks(self.state())->checks);
                assert(views(writes@) =~= Self::asks(self.state())->writes);
                r
            },
        }
    }

    fn resume(self, reply: Reply) -> (r: Step<Self, ()>) {
        let UpdateChildren { parent, change, max_retries, wording, retry, phase } = self;
        match phase {
            UpdatePhase::Read => match reply {
                Reply::Value(Some((Value::Children(c), revision))) => Step::Next(
                    UpdateChildren {
                        parent,
                        change,
                        max_retries,
                        wording,
                        retry,
                        phase: UpdatePhase::Write { names: c.children, revision },
                    },
                ),
                Reply::Value(_) => {
                    let names: Vec<String> = Vec::new();
                    assert(name_set(names@) =~= Set::empty());
                    Step::Next(
                        UpdateChildren {
                            parent,
                            change,
                            max_retries,
                            wording,
                            retry,
                            phase: UpdatePhase::Write { names, revision: 0 },
                        },
                    )
                },
                Reply::Malformed(text) => Step::Done(
                    Err(internal_error("Failed to parse children: ", Reply::Malformed(text))),
                ),
                _ => Step::Done(
                    Err(
                        match wording {
                            Wording::Key => internal_error("Failed to get key for CAS: ", reply),
                            Wording::Parent => internal_error(
                                "Failed to get children for CAS: ",
                                reply,
                            ),
                        },
                    ),
                ),
            },
            UpdatePhase::Write { names, revision } => match reply {
                Reply::Committed(true) => Step::Done(Ok(())),
                Reply::Committed(false) => if retry < max_retries && retry + 1 < max_retries {
                    Step::Next(
                        UpdateChildren {
                            parent,
                            change,
                            max_retries,
                            wording,
                            retry: retry + 1,
                            phase: UpdatePhase::Read,
                        },
                    )
                } else {
                    Step::Done(
                        Err(
                            match wording {
                                Wording::Key => MetaError::Internal(
                                    detailed(
                                        "CAS max retries exceeded for ",
                                        etcd_children_key(parent).as_str(),
                                    ),
                                ),
                                Wording::Parent => MetaError::Internal(
                                    detailed(
                                        "CAS max retries exceeded for parent ",
                                        i64_text(parent).as_str(),
                                    ),
                                ),
                            },
                        ),
                    )
                },
                Reply::Malformed(text) => Step::Done(
                    Err(internal_error("Failed to serialize children: ", Reply::Malformed(text))),
                ),
                _ => Step::Done(Err(internal_error("CAS transaction failed: ", reply))),
            },
        }
    }
}

} // verus!
