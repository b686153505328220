//! Updates of the names in a directory by a function of the caller's.

use crate::meta::entities::EtcdDirChildren;
use crate::meta::etcd::among_others::{kept, kept_until_last, lemma_rest};
use crate::meta::etcd::atomic_laws::{lemma_single_commit, names_of};
use crate::meta::etcd::atomic_store::{names_told, put_names};
use crate::meta::etcd::cas::{internal, internal_error, Wording};
use crate::meta::etcd::keys::etcd_children_key;
use crate::meta::etcd::kv::{
    answers, copy_names, distinct, fails, fits, name_set, revisions_tell, told, views,
    with_name, writes_tidy, Check, Event, Key, KeyView, Meaning, Reply, Request, RequestView, Shape,
    Value, Write,
};
use crate::meta::etcd::store::{as_read, check_as_read};
use crate::meta::store::{detailed, ErrorView, MetaError};
use crate::text::{dec, i64_text};
use vstd::prelude::*;
use vstd::string::*;

verus! {

/// Update of the names in a directory by a function of the caller's, tried again while others
/// write the same names.
pub struct NamesUpdate {
    pub parent: i64,
    pub max_retries: usize,
    pub wording: Wording,
    pub retry: usize,
    pub phase: NamesPhase,
}

/// How far an update has come.
pub enum NamesPhase {
    /// The names are read.
    Read,
    /// The names are updated by the caller; the revision is that of the names that were read.
    Update { revision: Option<i64> },
    /// The new names are written, if nobody wrote any since.
    Write { names: Vec<String>, revision: Option<i64> },
}

/// The state of an update, with the names as a set.
pub struct NamesState {
    pub parent: i64,
    pub max_retries: int,
    pub wording: Wording,
    pub retry: int,
    pub phase: NamesAt,
}

/// How far an update has come, with the names as a set.
pub enum NamesAt {
    Read,
    Update { revision: Option<i64> },
    Write { names: Set<Seq<char>>, revision: Option<i64> },
}

/// What an update does next.
pub enum NamesStep {
    /// It waits for the reply to its request.
    Ask(NamesUpdate),
    /// The caller makes the new names out of the current ones.
    Update { op: NamesUpdate, names: Vec<String> },
    /// It ends.
    Done(Result<(), MetaError>),
}

/// What an update does next, over views.
pub enum NamesStepView {
    Ask(NamesState),
    Update { op: NamesState, names: Set<Seq<char>> },
    Done(Result<(), ErrorView>),
}

impl View for NamesStep {
    type V = NamesStepView;

    open spec fn view(&self) -> NamesStepView {
        match *self {
            NamesStep::Ask(op) => NamesStepView::Ask(op.state()),
            NamesStep::Update { op, names } => NamesStepView::Update {
                op: op.state(),
                names: name_set(names@),
            },
            NamesStep::Done(Ok(_)) => NamesStepView::Done(Ok(())),
            NamesStep::Done(Err(e)) => NamesStepView::Done(Err(e@)),
        }
    }
}

impl NamesState {
    /// The state in another phase.
    pub open spec fn at(self, phase: NamesAt) -> NamesState {
        NamesState { phase, ..self }
    }

    /// The label of a failed read.
    pub open spec fn read_label(self) -> Seq<char> {
        match self.wording {
            Wording::Key => "Failed to get key for CAS: "@,
            Wording::Parent => "Failed to get children for CAS: "@,
        }
    }

    /// The error after the last try.
    pub open spec fn exhausted(self) -> ErrorView {
        match self.wording {
            Wording::Key => ErrorView::Internal(
                "CAS max retries exceeded for "@ + KeyView::Children(self.parent).text(),
            ),
            Wording::Parent => ErrorView::Internal(
                "CAS max retries exceeded for parent "@ + dec(self.parent as int),
            ),
        }
    }

    /// The request that the update waits on.
    pub open spec fn asks(self) -> RequestView {
        match self.phase {
            NamesAt::Write { names, revision } => RequestView::Commit {
                checks: seq![as_read(KeyView::Children(self.parent), revision)],
                writes: seq![put_names(self.parent, names)],
            },
            _ => RequestView::Get(KeyView::Children(self.parent), Shape::Children),
        }
    }

    /// How the update goes on after a reply.
    pub open spec fn after(self, reply: Reply) -> NamesStepView {
        match self.phase {
            NamesAt::Read => match names_told(reply) {
                Some(seen) => NamesStepView::Update {
                    op: self.at(NamesAt::Update { revision: seen.revision }),
                    names: seen.names,
                },
                None => match reply {
                    Reply::Malformed(_) => NamesStepView::Done(
                        Err(internal("Failed to parse children: "@, reply)),
                    ),
                    _ => NamesStepView::Done(Err(internal(self.read_label(), reply))),
                },
            },
            NamesAt::Update { .. } => NamesStepView::Ask(self),
            NamesAt::Write { .. } => match reply {
                Reply::Committed(true) => NamesStepView::Done(Ok(())),
                Reply::Committed(false) => if self.retry + 1 < self.max_retries {
                    NamesStepView::Ask(
                        NamesState { retry: self.retry + 1, phase: NamesAt::Read, ..self },
                    )
                } else {
                    NamesStepView::Done(Err(self.exhausted()))
                },
                Reply::Malformed(_) => NamesStepView::Done(
                    Err(internal("Failed to serialize children: "@, reply)),
                ),
                _ => NamesStepView::Done(Err(internal("CAS transaction failed: "@, reply))),
            },
        }
    }

    /// How the update goes on with the names that the caller made.
    pub open spec fn updated(self, names: Set<Seq<char>>) -> NamesState {
        self.at(NamesAt::Write { names, revision: self.phase->Update_revision })
    }
}

/// The names without repetitions.
pub fn once_each(names: &Vec<String>) -> (r: Vec<String>)
    ensures
        name_set(r@) == name_set(names@),
        distinct(r@),
{
    let mut r: Vec<String> = Vec::new();
    let mut i: usize = 0;
    assert(name_set(r@) =~= name_set(names@.take(0)));
    while i < names.len()
        invariant
            i <= names.len(),
            name_set(r@) == name_set(names@.take(i as int)),
            distinct(r@),
        decreases names.len() - i,
    {
        let ghost part = names@.take(i as int);
        let ghost more = names@.take(i + 1);
        let ghost name = names@[i as int]@;
        r = with_name(&r, &names[i]);
        assert(name_set(more) =~= name_set(part).insert(name)) by {
            assert(more =~= part.push(names@[i as int]));
            assert forall|n: Seq<char>| name_set(part).insert(name).contains(n) implies name_set(
                more,
            ).contains(n) by {
                if n == name {
                    assert(more[i as int]@ == n);
                } else {
                    let j = choose|j: int| 0 <= j < part.len() && #[trigger] part[j]@ == n;
                    assert(more[j]@ == n);
                }
            }
            assert forall|n: Seq<char>| name_set(more).contains(n) implies name_set(part).insert(
                name,
            ).contains(n) by {
                let j = choose|j: int| 0 <= j < more.len() && #[trigger] more[j]@ == n;
                if j < i {
                    assert(part[j]@ == n);
                }
            }
        }
        i = i + 1;
    }
    assert(names@.take(i as int) =~= names@);
    r
}

impl NamesUpdate {
    /// The view of the state.
    pub open spec fn state(self) -> NamesState {
        NamesState {
            parent: self.parent,
            max_retries: self.max_retries as int,
            wording: self.wording,
            retry: self.retry as int,
            phase: match self.phase {
                NamesPhase::Read => NamesAt::Read,
                NamesPhase::Update { revision } => NamesAt::Update { revision },
                NamesPhase::Write { names, revision } => NamesAt::Write {
                    names: name_set(names@),
                    revision,
                },
            },
        }
    }

    /// Whether the update waits on a request; the names that are to be written hold each name at
    /// most once.
    pub open spec fn ready(self) -> bool {
        match self.phase {
            NamesPhase::Read => true,
            NamesPhase::Update { .. } => false,
            NamesPhase::Write { names, .. } => distinct(names@),
        }
    }

    /// The update in its first state; without tries it ends with an error.
    pub fn start(parent: i64, max_retries: usize, wording: Wording) -> (r: NamesStep)
        ensures
            r@ == (if max_retries == 0 {
                NamesStepView::Done(Err(ErrorView::Internal("CAS update failed: unreachable"@)))
            } else {
                NamesStepView::Ask(
                    NamesState {
                        parent,
                        max_retries: max_retries as int,
                        wording,
                        retry: 0,
                        phase: NamesAt::Read,
                    },
                )
            }),
            r matches NamesStep::Ask(op) ==> op.ready(),
    {
        if max_retries == 0 {
            NamesStep::Done(
                Err(MetaError::Internal(String::from_str("CAS update failed: unreachable"))),
            )
        } else {
            NamesStep::Ask(
                NamesUpdate { parent, max_retries, wording, retry: 0, phase: NamesPhase::Read },
            )
        }
    }

    /// The request that the update waits on.
    pub fn request(&self) -> (r: Request)
        requires
            self.ready(),
        ensures
            r@ == self.state().asks(),
            writes_tidy(r),
    {
        match &self.phase {
            NamesPhase::Write { names, revision } => {
                let mut checks: Vec<Check> = Vec::new();
                checks.push(check_as_read(Key::Children(self.parent), *revision));
                let mut writes: Vec<Write> = Vec::new();
                writes.push(
                    Write::Put(
                        Key::Children(self.parent),
                        Value::Children(
                            EtcdDirChildren { inode: self.parent, children: copy_names(names) },
                        ),
                    ),
                );
                assert(views(checks@) =~= self.state().asks()->checks);
                assert(views(writes@) =~= self.state().asks()->writes);
                Request::Commit { checks, writes }
            },
            _ => Request::Get(Key::Children(self.parent), Shape::Children),
        }
    }

    /// Goes on after the reply to the request.
    pub fn resume(self, reply: Reply) -> (r: NamesStep)
        requires
            self.ready(),
            fits(self.state().asks(), reply),
        ensures
            r@ == self.state().after(reply),
            match r {
                NamesStep::Ask(op) => op.ready(),
                NamesStep::Update { op, names } => op.phase is Update && distinct(names@),
                NamesStep::Done(_) => true,
            },
    {
        let NamesUpdate { parent, max_retries, wording, retry, phase } = self;
        match phase {
            NamesPhase::Read => match reply {
                Reply::Value(Some((Value::Children(c), revision))) => NamesStep::Update {
                    op: NamesUpdate {
                        parent,
                        max_retries,
                        wording,
                        retry,
                        phase: NamesPhase::Update { revision: Some(revision) },
                    },
                    names: c.children,
                },
                Reply::Value(_) => {
                    let names: Vec<String> = Vec::new();
                    assert(name_set(names@) =~= Set::empty());
                    NamesStep::Update {
                        op: NamesUpdate {
                            parent,
                            max_retries,
                            wording,
                            retry,
                            phase: NamesPhase::Update { revision: None },
                        },
                        names,
                    }
                },
                Reply::Malformed(text) => NamesStep::Done(
                    Err(internal_error("Failed to parse children: ", Reply::Malformed(text))),
                ),
                _ => NamesStep::Done(
                    Err(
                        match wording {
                            Wording::Key => internal_error("Failed to get key for CAS: ", reply),
                            Wording::Parent => internal_error(
                                "Failed to get children for CAS: ",
                                reply,
                            ),
                        },
                    ),
                ),
            },
            NamesPhase::Update { revision } => NamesStep::Ask(
                NamesUpdate {
                    parent,
                    max_retries,
                    wording,
                    retry,
                    phase: NamesPhase::Update { revision },
                },
            ),
            NamesPhase::Write { .. } => match reply {
                Reply::Committed(true) => NamesStep::Done(Ok(())),
                Reply::Committed(false) => if retry < max_retries && retry + 1 < max_retries {
                    NamesStep::Ask(
                        NamesUpdate {
                            parent,
                            max_retries,
                            wording,
                            retry: retry + 1,
                            phase: NamesPhase::Read,
                        },
                    )
                } else {
                    NamesStep::Done(
                        Err(
                            match wording {
                                Wording::Key => MetaError::Internal(
                                    detailed(
                                        "CAS max retries exceeded for ",
                                        etcd_children_key(parent).as_str(),
                                    ),
                                ),
                                Wording::Parent => MetaError::Internal(
                                    detailed(
                                        "CAS max retries exceeded for parent ",
                                        i64_text(parent).as_str(),
                                    ),
                                ),
                            },
                        ),
                    )
                },
                Reply::Malformed(text) => NamesStep::Done(
                    Err(internal_error("Failed to serialize children: ", Reply::Malformed(text))),
                ),
                _ => NamesStep::Done(Err(internal_error("CAS transaction failed: ", reply))),
            },
        }
    }

    /// Goes on with the names that the caller made; a name that occurs twice counts once.
    pub fn updated(self, names: Vec<String>) -> (r: NamesUpdate)
        requires
            self.phase is Update,
        ensures
            r.state() == self.state().updated(name_set(names@)),
            r.ready(),
    {
        let NamesUpdate { parent, max_retries, wording, retry, phase } = self;
        let phase = match phase {
            NamesPhase::Update { revision } => NamesPhase::Write {
                names: once_each(&names),
                revision,
            },
            other => other,
        };
        NamesUpdate { parent, max_retries, wording, retry, phase }
    }
}

/// Whether an update, from a state on and with a function of the caller's, runs through events and
/// ends with `end`. What others do between two events is left open, and any request may fail.
pub open spec fn names_run(
    s: NamesState,
    update: spec_fn(Set<Seq<char>>) -> Set<Seq<char>>,
    events: Seq<Event>,
    end: Result<(), ErrorView>,
    lossy: bool,
) -> bool
    decreases events.len(),
{
    &&& events.len() > 0
    &&& s.phase !is Update
    &&& answers(events[0].before, s.asks(), events[0].reply, events[0].after) || fails(
        events[0].before,
        s.asks(),
        events[0].reply,
        events[0].after,
        lossy,
    )
    &&& match s.after(events[0].reply) {
        NamesStepView::Ask(s2) => names_run(s2, update, events.drop_first(), end, lossy),
        NamesStepView::Update { op, names } => names_run(
            op.updated(update(names)),
            update,
            events.drop_first(),
            end,
            lossy,
        ),
        NamesStepView::Done(r) => events.len() == 1 && end == r,
    }
}

/// Whether an event applies a function to the names that the directory has at that moment.
pub open spec fn applies(
    ev: Event,
    parent: i64,
    update: spec_fn(Set<Seq<char>>) -> Set<Seq<char>>,
) -> bool {
    ev.after == ev.before.put(
        KeyView::Children(parent),
        Meaning::Children { inode: parent, names: update(names_of(ev.before, parent)) },
    )
}

/// What an update knows: the names it is to write are made of those that the directory has
/// wherever nobody wrote since they were read.
spec fn update_knows(
    s: NamesState,
    update: spec_fn(Set<Seq<char>>) -> Set<Seq<char>>,
    all: Seq<Event>,
) -> bool {
    s.phase matches NamesAt::Write { names, revision } ==> forall|i: int|
        0 <= i < all.len() && (#[trigger] all[i]).before.holds(
            as_read(KeyView::Children(s.parent), revision),
        ) ==> names == update(names_of(all[i].before, s.parent))
}

/// An update from any state on.
proof fn lemma_names_run(
    s: NamesState,
    update: spec_fn(Set<Seq<char>>) -> Set<Seq<char>>,
    all: Seq<Event>,
    at: int,
    end: Result<(), ErrorView>,
    lossy: bool,
)
    requires
        revisions_tell(all),
        0 <= at <= all.len(),
        update_knows(s, update, all),
        names_run(s, update, all.skip(at), end, lossy),
    ensures
        forall|i: int| at <= i < all.len() - 1 ==> kept(#[trigger] all[i]),
        match end {
            Ok(_) => applies(all.last(), s.parent, update),
            Err(_) => kept(all.last()) || (lossy && applies(all.last(), s.parent, update)),
        },
    decreases all.len() - at,
{
    lemma_rest(all, at);
    let ev = all[at];
    let kv = ev.before;
    let k = KeyView::Children(s.parent);
    match s.phase {
        NamesAt::Read => {
            if kv.map.dom().contains(k) {
                assert(told(all, k, kv.map[k].0, kv.map[k].1));
            }
        },
        NamesAt::Write { names, revision } => {
            lemma_single_commit(kv, k, Meaning::Children { inode: s.parent, names });
            let cs = s.asks()->checks;
            if kv.all_hold(cs) {
                assert(kv.holds(cs[0]));
                assert(names == update(names_of(all[at].before, s.parent)));
            }
        },
        _ => {},
    }
    match s.after(ev.reply) {
        NamesStepView::Ask(s2) => lemma_names_run(s2, update, all, at + 1, end, lossy),
        NamesStepView::Update { op, names } => {
            let s2 = op.updated(update(names));
            assert(update_knows(s2, update, all));
            lemma_names_run(s2, update, all, at + 1, end, lossy);
        },
        NamesStepView::Done(_) => {},
    }
}

/// Whatever others do and whatever fails, an update by a function of the caller's applies the
/// function once, to the names that the directory has at the moment of its last request; one that
/// fails changes nothing, unless the reply to that request is lost.
pub proof fn law_names_update_among_others(
    s: NamesState,
    update: spec_fn(Set<Seq<char>>) -> Set<Seq<char>>,
    events: Seq<Event>,
    end: Result<(), ErrorView>,
    lossy: bool,
)
    requires
        s.phase is Read,
        revisions_tell(events),
        names_run(s, update, events, end, lossy),
    ensures
        kept_until_last(events),
        match end {
            Ok(_) => applies(events.last(), s.parent, update),
            Err(_) => kept(events.last()) || (lossy && applies(events.last(), s.parent, update)),
        },
{
    assert(events.skip(0) =~= events);
    lemma_names_run(s, update, events, 0, end, lossy);
}

} // verus!
