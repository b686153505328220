//! Atomic operations on keys, as a store offers them.

use crate::meta::etcd::cas::{internal, internal_error};
use crate::meta::etcd::kv::{
    answers, fits, runs, views, Check, CheckView, Key, KeyView, Kv, Meaning, Operation, Reply, Request,
    RequestView, Shape, Value, Write, WriteView,
};
use crate::meta::etcd::txn::{deletes, puts, push_deletes, push_puts, Entry};
use crate::meta::store::{detailed, ErrorView, MetaError, Step, StepView};
use vstd::prelude::*;
use vstd::string::*;

verus! {

/// The outcome of a write that depends on a version.
#[derive(Debug, Clone, PartialEq, Eq)]
pub enum CasResult<T> {
    /// The value was written.
    Success { value: T, version: i64 },
    /// Somebody wrote another version before.
    VersionMismatch { current_version: i64 },
    /// There is no such key.
    NotFound,
}

/// Counts of retries.
#[derive(Debug, Clone, Copy)]
pub struct TransactionMetrics {
    /// How many retries there were in all.
    pub total_retries: u64,
    /// How many operations used up their retries.
    pub max_retries_hit: u64,
    /// How many operations there were.
    pub operations: u64,
}

impl TransactionMetrics {
    /// Counts of nothing.
    pub fn new() -> (r: Self)
        ensures
            r == (TransactionMetrics { total_retries: 0, max_retries_hit: 0, operations: 0 }),
    {
        TransactionMetrics { total_retries: 0, max_retries_hit: 0, operations: 0 }
    }

    /// Counts an operation that was retried.
    pub fn record_retry(&mut self, retries: usize, max_retries: usize)
        requires
            old(self).total_retries + retries <= u64::MAX,
            old(self).max_retries_hit < u64::MAX,
            old(self).operations < u64::MAX,
        ensures
            final(self).total_retries == old(self).total_retries + retries,
            final(self).max_retries_hit == old(self).max_retries_hit + (if retries >= max_retries {
                1int
            } else {
                0int
            }),
            final(self).operations == old(self).operations + 1,
    {
        self.operations = self.operations + 1;
        self.total_retries = self.total_retries + retries as u64;
        if retries >= max_retries {
            self.max_retries_hit = self.max_retries_hit + 1;
        }
    }

    /// The average of the retries per operation, as a numerator and a denominator. Without
    /// operations both are zero.
    pub fn average(&self) -> (r: (u64, u64))
        ensures
            r == (self.total_retries, self.operations),
    {
        (self.total_retries, self.operations)
    }
}

/// Creation of entries if a key does not exist.
pub struct CreateIfAbsent {
    pub check_key: String,
    pub entries: Vec<Entry>,
}

impl Operation for CreateIfAbsent {
    type State = CreateIfAbsent;

    type Output = ();

    type Shown = ();

    open spec fn state(self) -> CreateIfAbsent {
        self
    }

    open spec fn shown(out: ()) -> () {
        out
    }

    open spec fn ready(self) -> bool {
        true
    }

    open spec fn asks(s: CreateIfAbsent) -> RequestView {
        RequestView::Commit {
            checks: seq![CheckView::Absent(KeyView::Plain(s.check_key@))],
            writes: puts(s.entries@),
        }
    }

    open spec fn after(s: CreateIfAbsent, reply: Reply) -> StepView<CreateIfAbsent, ()> {
        match reply {
            Reply::Committed(true) => StepView::Done(Ok(())),
            Reply::Committed(false) => StepView::Done(
                Err(ErrorView::AlreadyExists { parent: 0, name: s.check_key@ }),
            ),
            _ => StepView::Done(Err(internal("Atomic create transaction failed: "@, reply))),
        }
    }

    fn request(&self) -> (r: Request) {
        let mut checks: Vec<Check> = Vec::new();
        checks.push(Check::Absent(Key::Plain(self.check_key.clone())));
        let mut writes: Vec<Write> = Vec::new();
        push_puts(&mut writes, &self.entries);
        assert(views(checks@) =~= Self::asks(self.state())->checks);
        assert(views(writes@) =~= Self::asks(self.state())->writes);
        Request::Commit { checks, writes }
    }

    fn resume(self, reply: Reply) -> (r: Step<Self, ()>) {
        match reply {
            Reply::Committed(true) => Step::Done(Ok(())),
            Reply::Committed(false) => Step::Done(
                Err(MetaError::AlreadyExists { parent: 0, name: self.check_key }),
            ),
            _ => Step::Done(Err(internal_error("Atomic create transaction failed: ", reply))),
        }
    }
}

/// Deletion of keys if a key exists.
pub struct DeleteIfPresent {
    pub check_key: String,
    pub keys: Vec<String>,
}

impl Operation for DeleteIfPresent {
    type State = DeleteIfPresent;

    type Output = ();

    type Shown = ();

    open spec fn state(self) -> DeleteIfPresent {
        self
    }

    open spec fn shown(out: ()) -> () {
        out
    }

    open spec fn ready(self) -> bool {
        true
    }

    open spec fn asks(s: DeleteIfPresent) -> RequestView {
        RequestView::Commit {
            checks: seq![CheckView::Present(KeyView::Plain(s.check_key@))],
            writes: deletes(s.keys@),
        }
    }

    open spec fn after(s: DeleteIfPresent, reply: Reply) -> StepView<DeleteIfPresent, ()> {
        match reply {
            Reply::Committed(true) => StepView::Done(Ok(())),
            Reply::Committed(false) => StepView::Done(Err(ErrorView::NotFound(0))),
            _ => StepView::Done(Err(internal("Atomic delete transaction failed: "@, reply))),
        }
    }

    fn request(&self) -> (r: Request) {
        let mut checks: Vec<Check> = Vec::new();
        checks.push(Check::Present(Key::Plain(self.check_key.clone())));
        let mut writes: Vec<Write> = Vec::new();
        push_deletes(&mut writes, &self.keys);
        assert(views(checks@) =~= Self::asks(self.state())->checks);
        assert(views(writes@) =~= Self::asks(self.state())->writes);
        Request::Commit { checks, writes }
    }

    fn resume(self, reply: Reply) -> (r: Step<Self, ()>) {
        match reply {
            Reply::Committed(true) => Step::Done(Ok(())),
            Reply::Committed(false) => Step::Done(Err(MetaError::NotFound(0))),
            _ => Step::Done(Err(internal_error("Atomic delete transaction failed: ", reply))),
        }
    }
}

/// Move of a value from one key to another that does not exist.
pub struct MoveKey {
    pub source_key: String,
    pub target_key: String,
    pub target_value: String,
    pub refused: bool,
}

impl Operation for MoveKey {
    type State = MoveKey;

    type Output = ();

    type Shown = ();

    open spec fn state(self) -> MoveKey {
        self
    }

    open spec fn shown(out: ()) -> () {
        out
    }

    open spec fn ready(self) -> bool {
        true
    }

    open spec fn asks(s: MoveKey) -> RequestView {
        if s.refused {
            RequestView::Get(KeyView::Plain(s.source_key@), Shape::Text)
        } else {
            RequestView::Commit {
                checks: seq![
                    CheckView::Present(KeyView::Plain(s.source_key@)),
                    CheckView::Absent(KeyView::Plain(s.target_key@)),
                ],
                writes: seq![
                    WriteView::Put(KeyView::Plain(s.target_key@), Meaning::Text(s.target_value@)),
                    WriteView::Delete(KeyView::Plain(s.source_key@)),
                ],
            }
        }
    }

    open spec fn after(s: MoveKey, reply: Reply) -> StepView<MoveKey, ()> {
        if s.refused {
            match reply {
                Reply::Value(None) => StepView::Done(Err(ErrorView::NotFound(0))),
                Reply::Failed(_) => StepView::Done(
                    Err(internal("Failed to check source key: "@, reply)),
                ),
                _ => StepView::Done(
                    Err(ErrorView::AlreadyExists { parent: 0, name: s.target_key@ }),
                ),
            }
        } else {
            match reply {
                Reply::Committed(true) => StepView::Done(Ok(())),
                Reply::Committed(false) => StepView::Next(MoveKey { refused: true, ..s }),
                _ => StepView::Done(Err(internal("Atomic rename transaction failed: "@, reply))),
            }
        }
    }

    fn request(&self) -> (r: Request) {
        if self.refused {
            return Request::Get(Key::Plain(self.source_key.clone()), Shape::Text);
        }
        let mut checks: Vec<Check> = Vec::new();
        checks.push(Check::Present(Key::Plain(self.source_key.clone())));
        checks.push(Check::Absent(Key::Plain(self.target_key.clone())));
        let mut writes: Vec<Write> = Vec::new();
        writes.push(
            Write::Put(
                Key::Plain(self.target_key.clone()),
                Value::Text(self.target_value.clone()),
            ),
        );
        writes.push(Write::Delete(Key::Plain(self.source_key.clone())));
        assert(views(checks@) =~= Self::asks(self.state())->checks);
        assert(views(writes@) =~= Self::asks(self.state())->writes);
        Request::Commit { checks, writes }
    }

    fn resume(self, reply: Reply) -> (r: Step<Self, ()>) {
        if self.refused {
            match reply {
                Reply::Value(None) => Step::Done(Err(MetaError::NotFound(0))),
                Reply::Failed(text) => Step::Done(
                    Err(internal_error("Failed to check source key: ", Reply::Failed(text))),
                ),
                _ => Step::Done(
                    Err(MetaError::AlreadyExists { parent: 0, name: self.target_key }),
                ),
            }
        } else {
            match reply {
                Reply::Committed(true) => Step::Done(Ok(())),
                Reply::Committed(false) => Step::Next(
                    MoveKey {
                        source_key: self.source_key,
                        target_key: self.target_key,
                        target_value: self.target_value,
                        refused: true,
                    },
                ),
                _ => Step::Done(Err(internal_error("Atomic rename transaction failed: ", reply))),
            }
        }
    }
}

/// Update of the value under a key by a function of the caller's, tried again
/// while others write the same key.
pub struct CasUpdate {
    pub key: String,
    pub max_retries: usize,
    pub retry: usize,
    pub phase: CasPhase,
}

/// How far an update has come.
pub enum CasPhase {
    /// The value is read.
    Read,
    /// The value is updated by the caller.
    Update { revision: i64 },
    /// The new value is written, if the key was not written since the revision.
    Write { value: String, revision: i64 },
    /// The revision of the write is read.
    ReadBack,
}

/// What an update does next.
pub enum CasStep {
    /// It waits for the reply to its request.
    Ask(CasUpdate),
    /// The caller makes the new value out of the current one and its revision.
    Update { op: CasUpdate, current: String, revision: i64 },
    /// It ends with the new revision or an error.
    Done(Result<i64, MetaError>),
}

/// What an update does next, over views.
pub enum CasStepView {
    Ask(CasUpdate),
    Update { op: CasUpdate, current: String, revision: i64 },
    Done(Result<i64, ErrorView>),
}

impl View for CasStep {
    type V = CasStepView;

    open spec fn view(&self) -> CasStepView {
        match *self {
            CasStep::Ask(op) => CasStepView::Ask(op),
            CasStep::Update { op, current, revision } => CasStepView::Update {
                op,
                current,
                revision,
            },
            CasStep::Done(Ok(revision)) => CasStepView::Done(Ok(revision)),
            CasStep::Done(Err(e)) => CasStepView::Done(Err(e@)),
        }
    }
}

impl CasUpdate {
    /// The state in another phase.
    pub open spec fn at(self, phase: CasPhase) -> CasUpdate {
        CasUpdate { phase, ..self }
    }

    /// The update in its first state; without tries it ends with an error.
    pub fn start(key: String, max_retries: usize) -> (r: CasStep)
        ensures
            r@ == (if max_retries == 0 {
                CasStepView::Done(Err(ErrorView::Internal("CAS update failed: unreachable"@)))
            } else {
                CasStepView::Ask(CasUpdate { key, max_retries, retry: 0, phase: CasPhase::Read })
            }),
    {
        if max_retries == 0 {
            CasStep::Done(
                Err(MetaError::Internal(String::from_str("CAS update failed: unreachable"))),
            )
        } else {
            CasStep::Ask(CasUpdate { key, max_retries, retry: 0, phase: CasPhase::Read })
        }
    }

    /// The request that the update waits on.
    pub open spec fn asks(self) -> RequestView {
        match self.phase {
            CasPhase::Write { value, revision } => RequestView::Commit {
                checks: seq![CheckView::Unchanged(KeyView::Plain(self.key@), revision)],
                writes: seq![WriteView::Put(KeyView::Plain(self.key@), Meaning::Text(value@))],
            },
            _ => RequestView::Get(KeyView::Plain(self.key@), Shape::Text),
        }
    }

    /// The request that the update waits on.
    pub fn request(&self) -> (r: Request)
        ensures
            r@ == self.asks(),
    {
        match &self.phase {
            CasPhase::Write { value, revision } => {
                let mut checks: Vec<Check> = Vec::new();
                checks.push(Check::Unchanged(Key::Plain(self.key.clone()), *revision));
                let mut writes: Vec<Write> = Vec::new();
                writes.push(Write::Put(Key::Plain(self.key.clone()), Value::Text(value.clone())));
                assert(views(checks@) =~= self.asks()->checks);
                assert(views(writes@) =~= self.asks()->writes);
                Request::Commit { checks, writes }
            },
            _ => Request::Get(Key::Plain(self.key.clone()), Shape::Text),
        }
    }

    /// How the update goes on after a reply.
    pub open spec fn after(self, reply: Reply) -> CasStepView {
        match self.phase {
            CasPhase::Read => match reply {
                Reply::Value(Some((Value::Text(current), revision))) => CasStepView::Update {
                    op: self.at(CasPhase::Update { revision }),
                    current,
                    revision,
                },
                Reply::Value(_) => CasStepView::Done(Err(ErrorView::NotFound(0))),
                _ => CasStepView::Done(Err(internal("Failed to get key for CAS: "@, reply))),
            },
            CasPhase::Update { .. } => CasStepView::Ask(self),
            CasPhase::Write { value, revision } => match reply {
                Reply::Committed(true) => CasStepView::Ask(self.at(CasPhase::ReadBack)),
                Reply::Committed(false) => if self.retry + 1 < self.max_retries {
                    CasStepView::Ask(
                        CasUpdate {
                            key: self.key,
                            max_retries: self.max_retries,
                            retry: (self.retry + 1) as usize,
                            phase: CasPhase::Read,
                        },
                    )
                } else {
                    CasStepView::Done(
                        Err(ErrorView::Internal("CAS max retries exceeded for "@ + self.key@)),
                    )
                },
                _ => CasStepView::Done(Err(internal("CAS transaction failed: "@, reply))),
            },
            CasPhase::ReadBack => match reply {
                Reply::Value(Some((_, revision))) => CasStepView::Done(Ok(revision)),
                Reply::Value(_) => CasStepView::Done(
                    Err(ErrorView::Internal("Key disappeared after CAS update"@)),
                ),
                _ => CasStepView::Done(Err(internal("Failed to get updated key: "@, reply))),
            },
        }
    }

    /// Goes on after the reply to the request.
    pub fn resume(self, reply: Reply) -> (r: CasStep)
        requires
            fits(self.asks(), reply),
        ensures
            r@ == self.after(reply),
    {
        let CasUpdate { key, max_retries, retry, phase } = self;
        match phase {
            CasPhase::Read => match reply {
                Reply::Value(Some((Value::Text(current), revision))) => CasStep::Update {
                    op: CasUpdate { key, max_retries, retry, phase: CasPhase::Update { revision } },
                    current,
                    revision,
                },
                Reply::Value(_) => CasStep::Done(Err(MetaError::NotFound(0))),
                _ => CasStep::Done(Err(internal_error("Failed to get key for CAS: ", reply))),
            },
            CasPhase::Update { revision } => CasStep::Ask(
                CasUpdate { key, max_retries, retry, phase: CasPhase::Update { revision } },
            ),
            CasPhase::Write { value, revision } => match reply {
                Reply::Committed(true) => CasStep::Ask(
                    CasUpdate { key, max_retries, retry, phase: CasPhase::ReadBack },
                ),
                Reply::Committed(false) => if retry < max_retries && retry + 1 < max_retries {
                    CasStep::Ask(
                        CasUpdate { key, max_retries, retry: retry + 1, phase: CasPhase::Read },
                    )
                } else {
                    CasStep::Done(
                        Err(
                            MetaError::Internal(
                                detailed("CAS max retries exceeded for ", key.as_str()),
                            ),
                        ),
                    )
                },
                _ => CasStep::Done(Err(internal_error("CAS transaction failed: ", reply))),
            },
            CasPhase::ReadBack => match reply {
                Reply::Value(Some((_, revision))) => CasStep::Done(Ok(revision)),
                Reply::Value(_) => CasStep::Done(
                    Err(MetaError::Internal(String::from_str("Key disappeared after CAS update"))),
                ),
                _ => CasStep::Done(Err(internal_error("Failed to get updated key: ", reply))),
            },
        }
    }

    /// Goes on with the new value that the caller made, or its error.
    pub fn updated(self, result: Result<String, MetaError>) -> (r: CasStep)
        requires
            self.phase is Update,
        ensures
            r@ == (match result {
                Ok(value) => CasStepView::Ask(
                    self.at(CasPhase::Write { value, revision: self.phase->Update_revision }),
                ),
                Err(e) => CasStepView::Done(Err(e@)),
            }),
    {
        let CasUpdate { key, max_retries, retry, phase } = self;
        match result {
            Err(e) => CasStep::Done(Err(e)),
            Ok(value) => match phase {
                CasPhase::Update { revision } => CasStep::Ask(
                    CasUpdate {
                        key,
                        max_retries,
                        retry,
                        phase: CasPhase::Write { value, revision },
                    },
                ),
                other => CasStep::Ask(CasUpdate { key, max_retries, retry, phase: other }),
            },
        }
    }
}

/// Entries are created if and only if the checked key does not exist; otherwise
/// nothing changes and the key is reported.
pub proof fn law_create_if_not_exists(kv: Kv, kv2: Kv, s: CreateIfAbsent, reply: Reply)
    requires
        answers(kv, CreateIfAbsent::asks(s), reply, kv2),
    ensures
        !kv.map.dom().contains(KeyView::Plain(s.check_key@)) ==> kv2 == kv.commit(puts(s.entries@))
            && CreateIfAbsent::after(s, reply) == StepView::<CreateIfAbsent, ()>::Done(Ok(())),
        kv.map.dom().contains(KeyView::Plain(s.check_key@)) ==> kv2 == kv && CreateIfAbsent::after(
            s,
            reply,
        ) == StepView::<CreateIfAbsent, ()>::Done(
            Err(ErrorView::AlreadyExists { parent: 0, name: s.check_key@ }),
        ),
{
    let cs = CreateIfAbsent::asks(s)->checks;
    assert(cs[0] == CheckView::Absent(KeyView::Plain(s.check_key@)));
    assert(kv.all_hold(cs) <==> kv.holds(cs[0]));
}

/// Keys are deleted if and only if the checked key exists; otherwise nothing
/// changes.
pub proof fn law_delete_if_exists(kv: Kv, kv2: Kv, s: DeleteIfPresent, reply: Reply)
    requires
        answers(kv, DeleteIfPresent::asks(s), reply, kv2),
    ensures
        kv.map.dom().contains(KeyView::Plain(s.check_key@)) ==> kv2 == kv.commit(deletes(s.keys@))
            && DeleteIfPresent::after(s, reply) == StepView::<DeleteIfPresent, ()>::Done(Ok(())),
        !kv.map.dom().contains(KeyView::Plain(s.check_key@)) ==> kv2 == kv
            && DeleteIfPresent::after(s, reply) == StepView::<DeleteIfPresent, ()>::Done(
            Err(ErrorView::NotFound(0)),
        ),
{
    let cs = DeleteIfPresent::asks(s)->checks;
    assert(cs[0] == CheckView::Present(KeyView::Plain(s.check_key@)));
    assert(kv.all_hold(cs) <==> kv.holds(cs[0]));
}

/// A value is moved if and only if the source exists and the target does not;
/// otherwise nothing changes, and the reason is reported.
pub proof fn law_rename_atomic(
    kv: Kv,
    s: MoveKey,
    trace: Seq<(Reply, Kv)>,
    end: (Kv, Result<(), ErrorView>),
)
    requires
        !s.refused,
        runs::<MoveKey>(s, kv, trace, end),
    ensures
        ({
            let source = KeyView::Plain(s.source_key@);
            let target = KeyView::Plain(s.target_key@);
            if !kv.map.dom().contains(source) {
                end == (kv, Err::<(), ErrorView>(ErrorView::NotFound(0)))
            } else if kv.map.dom().contains(target) {
                end == (
                    kv,
                    Err::<(), ErrorView>(
                        ErrorView::AlreadyExists { parent: 0, name: s.target_key@ },
                    ),
                )
            } else {
                &&& end.1 == Ok::<(), ErrorView>(())
                &&& end.0.get(target) == Some(Meaning::Text(s.target_value@))
                &&& end.0.get(source) is None
                &&& forall|k: KeyView|
                    k != source && k != target ==> #[trigger] end.0.get(k) == kv.get(k)
            }
        }),
{
    reveal_with_fuel(runs, 3);
    let source = KeyView::Plain(s.source_key@);
    let target = KeyView::Plain(s.target_key@);
    let cs = MoveKey::asks(s)->checks;
    assert(cs[0] == CheckView::Present(source));
    assert(cs[1] == CheckView::Absent(target));
    assert(kv.all_hold(cs) <==> kv.holds(cs[0]) && kv.holds(cs[1]));
    let ws = MoveKey::asks(s)->writes;
    reveal_with_fuel(Kv::all_written, 3);
    assert(ws.drop_last().drop_last() =~= Seq::empty());
    assert(ws.drop_last().last() == ws[0]);
}

} // verus!
