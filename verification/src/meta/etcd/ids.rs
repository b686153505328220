//! Numbers for new inodes from a counter key.

use crate::meta::etcd::cas::{internal, internal_error};
use crate::meta::etcd::kv::{
    answers, views, writes_tidy, Check, CheckView, Key, KeyView, Kv, Meaning, Operation, Reply, Request,
    RequestView, Shape, Value, Write, WriteView,
};
use crate::meta::store::{detailed, ErrorView, MetaError, Step, StepView};
use crate::text::{dec, i64_text, law_decimal_reads_back, parse_i64, parse_signed};
use vstd::prelude::*;
use vstd::string::*;

verus! {

/// The number after another; the last is followed by the first.
pub open spec fn successor(id: i64) -> i64 {
    if id == i64::MAX {
        i64::MIN
    } else {
        (id + 1) as i64
    }
}

/// The number after another.
fn next_number(id: i64) -> (r: i64)
    ensures
        r == successor(id),
        id < i64::MAX ==> r == id + 1,
{
    if id == i64::MAX {
        i64::MIN
    } else {
        id + 1
    }
}

/// The request that writes a counter if it was not written since a revision.
pub open spec fn counter_commit(key: Seq<char>, next: i64, revision: i64) -> RequestView {
    RequestView::Commit {
        checks: seq![CheckView::Unchanged(KeyView::Plain(key), revision)],
        writes: seq![
            WriteView::Put(KeyView::Plain(key), Meaning::Text(dec(next as int))),
        ],
    }
}

/// The request that writes a counter if it was not written since a revision.
fn commit_counter(key: &str, next: i64, revision: i64) -> (r: Request)
    ensures
        r@ == counter_commit(key@, next, revision),
        writes_tidy(r),
{
    let mut checks: Vec<Check> = Vec::new();
    checks.push(Check::Unchanged(Key::Plain(key.to_owned()), revision));
    let mut writes: Vec<Write> = Vec::new();
    writes.push(Write::Put(Key::Plain(key.to_owned()), Value::Text(i64_text(next))));
    let r = Request::Commit { checks, writes };
    assert(views(checks@) =~= counter_commit(key@, next, revision)->checks);
    assert(views(writes@) =~= counter_commit(key@, next, revision)->writes);
    r
}

/// The request that begins a counter with two if it is absent.
pub open spec fn counter_begin(key: Seq<char>) -> RequestView {
    RequestView::Commit {
        checks: seq![CheckView::Absent(KeyView::Plain(key))],
        writes: seq![WriteView::Put(KeyView::Plain(key), Meaning::Text("2"@))],
    }
}

/// The request that begins a counter with two if it is absent.
fn begin_counter(key: &str) -> (r: Request)
    ensures
        r@ == counter_begin(key@),
        writes_tidy(r),
{
    let mut checks: Vec<Check> = Vec::new();
    checks.push(Check::Absent(Key::Plain(key.to_owned())));
    let mut writes: Vec<Write> = Vec::new();
    writes.push(Write::Put(Key::Plain(key.to_owned()), Value::Text(String::from_str("2"))));
    assert(views(checks@) =~= counter_begin(key@)->checks);
    assert(views(writes@) =~= counter_begin(key@)->writes);
    Request::Commit { checks, writes }
}

/// The error of a failure in the configuration, with a label.
pub open spec fn config_failure(label: Seq<char>, reply: Reply) -> ErrorView {
    match reply {
        Reply::Failed(text) => ErrorView::Config(label + text@),
        Reply::Malformed(text) => ErrorView::Config(label + text@),
        _ => ErrorView::Config(label),
    }
}

/// The error of a failure in the configuration, with a label.
fn config_error(label: &str, reply: Reply) -> (r: MetaError)
    ensures
        r@ == config_failure(label@, reply),
{
    match reply {
        Reply::Failed(text) => MetaError::Config(detailed(label, text.as_str())),
        Reply::Malformed(text) => MetaError::Config(detailed(label, text.as_str())),
        _ => MetaError::Config(String::from_str(label)),
    }
}

/// The next number of the counter `slayerfs:next_inode_id`, tried up to ten times.
/// A counter that is absent begins with two; one that is no number counts as one.
pub enum GenerateId {
    /// The counter is read.
    Read { retry: u32 },
    /// The counter is begun, if it is still absent.
    Begin { retry: u32 },
    /// The next number is written.
    Write { retry: u32, next: i64, revision: i64 },
}

/// How often the number is tried for.
pub const GENERATE_TRIES: u32 = 10;

/// The number that the text of a counter stands for.
pub open spec fn counter_value(text: Seq<char>) -> i64 {
    match parse_signed(text) {
        Ok(id) => id as i64,
        Err(_) => 1,
    }
}

impl GenerateId {
    /// The counter is read again, unless it was read often enough.
    pub open spec fn again(retry: u32) -> StepView<GenerateId, i64> {
        if retry + 1 < GENERATE_TRIES {
            StepView::Next(GenerateId::Read { retry: (retry + 1) as u32 })
        } else {
            StepView::Done(Err(ErrorView::Config("Failed to generate ID after max retries"@)))
        }
    }

    /// The first state.
    pub fn start() -> (r: GenerateId)
        ensures
            r == (GenerateId::Read { retry: 0 }),
    {
        GenerateId::Read { retry: 0 }
    }
}

impl Operation for GenerateId {
    type State = GenerateId;

    type Output = i64;

    type Shown = i64;

    open spec fn state(self) -> GenerateId {
        self
    }

    open spec fn shown(out: i64) -> i64 {
        out
    }

    open spec fn ready(self) -> bool {
        true
    }

    open spec fn asks(s: GenerateId) -> RequestView {
        let key = "slayerfs:next_inode_id"@;
        match s {
            GenerateId::Read { .. } => RequestView::Get(KeyView::Plain(key), Shape::Text),
            GenerateId::Begin { .. } => counter_begin(key),
            GenerateId::Write { retry, next, revision } => counter_commit(key, next, revision),
        }
    }

    open spec fn after(s: GenerateId, reply: Reply) -> StepView<GenerateId, i64> {
        match s {
            GenerateId::Read { retry } => match reply {
                Reply::Value(Some((Value::Text(text), revision))) => StepView::Next(
                    GenerateId::Write {
                        retry,
                        next: successor(counter_value(text@)),
                        revision,
                    },
                ),
                Reply::Value(_) => StepView::Next(GenerateId::Begin { retry }),
                _ => StepView::Done(Err(config_failure("Failed to get ID counter: "@, reply))),
            },
            GenerateId::Begin { retry } => match reply {
                Reply::Committed(true) => StepView::Done(Ok(2i64)),
                Reply::Committed(false) => GenerateId::again(retry),
                _ => StepView::Done(
                    Err(config_failure("Failed to initialize ID counter: "@, reply)),
                ),
            },
            GenerateId::Write { retry, next, revision } => match reply {
                Reply::Committed(true) => StepView::Done(Ok(next)),
                Reply::Committed(false) => GenerateId::again(retry),
                _ => StepView::Done(
                    Err(config_failure("Failed to execute ID generation transaction: "@, reply)),
                ),
            },
        }
    }

    fn request(&self) -> (r: Request) {
        match self {
            GenerateId::Read { .. } => Request::Get(
                Key::Plain(String::from_str("slayerfs:next_inode_id")),
                Shape::Text,
            ),
            GenerateId::Begin { .. } => begin_counter("slayerfs:next_inode_id"),
            GenerateId::Write { retry, next, revision } => commit_counter(
                "slayerfs:next_inode_id",
                *next,
                *revision,
            ),
        }
    }

    fn resume(self, reply: Reply) -> (r: Step<Self, i64>) {
        match self {
            GenerateId::Read { retry } => match reply {
                Reply::Value(Some((Value::Text(text), revision))) => {
                    let id: i64 = match parse_i64(text.as_str()) {
                        Ok(id) => id,
                        Err(_) => 1,
                    };
                    Step::Next(GenerateId::Write { retry, next: next_number(id), revision })
                },
                Reply::Value(_) => Step::Next(GenerateId::Begin { retry }),
                _ => Step::Done(Err(config_error("Failed to get ID counter: ", reply))),
            },
            GenerateId::Begin { retry } => match reply {
                Reply::Committed(true) => Step::Done(Ok(2)),
                Reply::Committed(false) => generate_again(retry),
                _ => Step::Done(Err(config_error("Failed to initialize ID counter: ", reply))),
            },
            GenerateId::Write { retry, next, revision } => match reply {
                Reply::Committed(true) => Step::Done(Ok(next)),
                Reply::Committed(false) => generate_again(retry),
                _ => Step::Done(
                    Err(config_error("Failed to execute ID generation transaction: ", reply)),
                ),
            },
        }
    }
}

/// The counter is read again, unless it was read often enough.
fn generate_again(retry: u32) -> (r: Step<GenerateId, i64>)
    ensures
        (match r {
            Step::Next(s) => StepView::<GenerateId, i64>::Next(s),
            Step::Done(Ok(out)) => StepView::<GenerateId, i64>::Done(Ok(out)),
            Step::Done(Err(e)) => StepView::<GenerateId, i64>::Done(Err(e@)),
        }) == GenerateId::again(retry),
{
    if retry < GENERATE_TRIES - 1 {
        Step::Next(GenerateId::Read { retry: retry + 1 })
    } else {
        Step::Done(
            Err(MetaError::Config(String::from_str("Failed to generate ID after max retries"))),
        )
    }
}

/// The next number of a counter under a key, tried up to twenty times with
/// growing pauses. A counter that is absent begins with two; one that is no
/// number is an error.
pub struct NextId {
    pub key: String,
    pub phase: NextIdPhase,
}

/// How far the next number has come.
pub enum NextIdPhase {
    /// The counter is read.
    Read { attempt: u32 },
    /// The counter is begun, if it is still absent.
    Begin { attempt: u32 },
    /// The next number is written.
    Write { attempt: u32, next: i64, revision: i64 },
    /// A pause before the next try.
    Pause { attempt: u32 },
}

/// How often the next number is tried for.
pub const NEXT_ID_TRIES: u32 = 20;

/// The pause after a try, in milliseconds: doubled from try to try, up to 1024.
pub open spec fn backoff_ms(attempt: u32) -> u64 {
    if attempt < 10 {
        vstd::arithmetic::power2::pow2(attempt as nat) as u64
    } else {
        1024
    }
}

/// The pause after a try, in milliseconds.
pub fn backoff(attempt: u32) -> (r: u64)
    ensures
        r == backoff_ms(attempt),
        r == 1 <==> attempt == 0,
        r <= 1024,
        attempt >= 10 ==> r == 1024,
{
    proof {
        vstd::arithmetic::power2::lemma2_to64();
    }
    match attempt {
        0 => 1,
        1 => 2,
        2 => 4,
        3 => 8,
        4 => 16,
        5 => 32,
        6 => 64,
        7 => 128,
        8 => 256,
        9 => 512,
        _ => 1024,
    }
}

impl NextId {
    /// The state in another phase.
    pub open spec fn at(self, phase: NextIdPhase) -> NextId {
        NextId { key: self.key, phase }
    }

    /// The counter is read again after a pause, unless it was read often enough.
    pub open spec fn again(self, attempt: u32) -> StepView<NextId, i64> {
        if attempt + 1 < NEXT_ID_TRIES {
            StepView::Next(self.at(NextIdPhase::Pause { attempt }))
        } else {
            StepView::Done(Err(ErrorView::Internal("Failed to generate ID after max retries"@)))
        }
    }
}

impl Operation for NextId {
    type State = NextId;

    type Output = i64;

    type Shown = i64;

    open spec fn state(self) -> NextId {
        self
    }

    open spec fn shown(out: i64) -> i64 {
        out
    }

    open spec fn ready(self) -> bool {
        true
    }

    open spec fn asks(s: NextId) -> RequestView {
        match s.phase {
            NextIdPhase::Read { .. } => RequestView::Get(KeyView::Plain(s.key@), Shape::Text),
            NextIdPhase::Begin { .. } => counter_begin(s.key@),
            NextIdPhase::Write { attempt, next, revision } => counter_commit(
                s.key@,
                next,
                revision,
            ),
            NextIdPhase::Pause { attempt } => RequestView::Wait(backoff_ms(attempt)),
        }
    }

    open spec fn after(s: NextId, reply: Reply) -> StepView<NextId, i64> {
        match s.phase {
            NextIdPhase::Read { attempt } => match reply {
                Reply::Value(Some((Value::Text(text), revision))) => match parse_signed(text@) {
                    Ok(id) => StepView::Next(
                        s.at(
                            NextIdPhase::Write {
                                attempt,
                                next: successor(id as i64),
                                revision,
                            },
                        ),
                    ),
                    Err(e) => StepView::Done(
                        Err(ErrorView::Internal("Invalid counter value: "@ + e.text())),
                    ),
                },
                Reply::Value(_) => StepView::Next(s.at(NextIdPhase::Begin { attempt })),
                _ => StepView::Done(Err(internal("Failed to get counter: "@, reply))),
            },
            NextIdPhase::Begin { attempt } => match reply {
                Reply::Committed(true) => StepView::Done(Ok(2i64)),
                Reply::Committed(false) => s.again(attempt),
                _ => StepView::Done(Err(internal("Failed to initialize: "@, reply))),
            },
            NextIdPhase::Write { attempt, next, revision } => match reply {
                Reply::Committed(true) => StepView::Done(Ok(next)),
                Reply::Committed(false) => s.again(attempt),
                _ => StepView::Done(Err(internal("Transaction failed: "@, reply))),
            },
            NextIdPhase::Pause { attempt } => StepView::Next(
                s.at(
                    NextIdPhase::Read {
                        attempt: if attempt < NEXT_ID_TRIES {
                            (attempt + 1) as u32
                        } else {
                            attempt
                        },
                    },
                ),
            ),
        }
    }

    fn request(&self) -> (r: Request) {
        match &self.phase {
            NextIdPhase::Read { .. } => Request::Get(Key::Plain(self.key.clone()), Shape::Text),
            NextIdPhase::Begin { .. } => begin_counter(self.key.as_str()),
            NextIdPhase::Write { attempt, next, revision } => commit_counter(
                self.key.as_str(),
                *next,
                *revision,
            ),
            NextIdPhase::Pause { attempt } => Request::Wait(backoff(*attempt)),
        }
    }

    fn resume(self, reply: Reply) -> (r: Step<Self, i64>) {
        let NextId { key, phase } = self;
        let next = match phase {
            NextIdPhase::Read { attempt } => match reply {
                Reply::Value(Some((Value::Text(text), revision))) => match parse_i64(
                    text.as_str(),
                ) {
                    Ok(id) => NextIdPhase::Write { attempt, next: next_number(id), revision },
                    Err(e) => {
                        return Step::Done(
                            Err(
                                MetaError::Internal(
                                    detailed("Invalid counter value: ", e.message().as_str()),
                                ),
                            ),
                        );
                    },
                },
                Reply::Value(_) => NextIdPhase::Begin { attempt },
                _ => return Step::Done(Err(internal_error("Failed to get counter: ", reply))),
            },
            NextIdPhase::Begin { attempt } => match reply {
                Reply::Committed(true) => return Step::Done(Ok(2)),
                Reply::Committed(false) => {
                    if attempt >= NEXT_ID_TRIES - 1 {
                        return Step::Done(Err(no_more_tries()));
                    }
                    NextIdPhase::Pause { attempt }
                },
                _ => return Step::Done(Err(internal_error("Failed to initialize: ", reply))),
            },
            NextIdPhase::Write { attempt, next, revision } => match reply {
                Reply::Committed(true) => return Step::Done(Ok(next)),
                Reply::Committed(false) => {
                    if attempt >= NEXT_ID_TRIES - 1 {
                        return Step::Done(Err(no_more_tries()));
                    }
                    NextIdPhase::Pause { attempt }
                },
                _ => return Step::Done(Err(internal_error("Transaction failed: ", reply))),
            },
            NextIdPhase::Pause { attempt } => NextIdPhase::Read {
                attempt: if attempt < NEXT_ID_TRIES {
                    attempt + 1
                } else {
                    attempt
                },
            },
        };
        Step::Next(NextId { key, phase: next })
    }
}

/// The error when the next number was tried for often enough.
fn no_more_tries() -> (r: MetaError)
    ensures
        r@ == ErrorView::Internal("Failed to generate ID after max retries"@),
{
    MetaError::Internal(String::from_str("Failed to generate ID after max retries"))
}

/// Preparation of a counter under a key: one that is absent begins with two.
pub struct InitCounter {
    pub key: String,
    pub absent: bool,
}

impl Operation for InitCounter {
    type State = InitCounter;

    type Output = ();

    type Shown = ();

    open spec fn state(self) -> InitCounter {
        self
    }

    open spec fn shown(out: ()) -> () {
        out
    }

    open spec fn ready(self) -> bool {
        true
    }

    open spec fn asks(s: InitCounter) -> RequestView {
        if s.absent {
            counter_begin(s.key@)
        } else {
            RequestView::Get(KeyView::Plain(s.key@), Shape::Text)
        }
    }

    open spec fn after(s: InitCounter, reply: Reply) -> StepView<InitCounter, ()> {
        if s.absent {
            match reply {
                Reply::Committed(_) => StepView::Done(Ok(())),
                _ => StepView::Done(
                    Err(config_failure("Failed to initialize counter: "@, reply)),
                ),
            }
        } else {
            match reply {
                Reply::Value(None) => StepView::Next(InitCounter { key: s.key, absent: true }),
                Reply::Failed(_) => StepView::Done(
                    Err(config_failure("Failed to check counter: "@, reply)),
                ),
                _ => StepView::Done(Ok(())),
            }
        }
    }

    fn request(&self) -> (r: Request) {
        if self.absent {
            begin_counter(self.key.as_str())
        } else {
            Request::Get(Key::Plain(self.key.clone()), Shape::Text)
        }
    }

    fn resume(self, reply: Reply) -> (r: Step<Self, ()>) {
        if self.absent {
            match reply {
                Reply::Committed(_) => Step::Done(Ok(())),
                _ => Step::Done(Err(config_error("Failed to initialize counter: ", reply))),
            }
        } else {
            match reply {
                Reply::Value(None) => Step::Next(InitCounter { key: self.key, absent: true }),
                Reply::Failed(text) => Step::Done(
                    Err(config_error("Failed to check counter: ", Reply::Failed(text))),
                ),
                _ => Step::Done(Ok(())),
            }
        }
    }
}

/// The generator of inode numbers over the key-value service.
#[derive(Debug, Clone)]
pub struct EtcdIdGenerator {
    pub key: String,
}

impl EtcdIdGenerator {
    /// A generator that counts under `slayerfs/inode_counter`.
    pub fn new() -> (r: EtcdIdGenerator)
        ensures
            r.key@ == "slayerfs/inode_counter"@,
    {
        EtcdIdGenerator { key: String::from_str("slayerfs/inode_counter") }
    }

    /// The generator that counts under another key.
    pub fn with_key(self, key: String) -> (r: EtcdIdGenerator)
        ensures
            r.key == key,
    {
        EtcdIdGenerator { key }
    }

    /// Prepares the counter.
    pub fn initialize(&self) -> (r: InitCounter)
        ensures
            r == (InitCounter { key: self.key, absent: false }),
    {
        InitCounter { key: self.key.clone(), absent: false }
    }

    /// Takes the next number.
    pub fn next_id(&self) -> (r: NextId)
        ensures
            r == (NextId { key: self.key, phase: NextIdPhase::Read { attempt: 0 } }),
    {
        NextId { key: self.key.clone(), phase: NextIdPhase::Read { attempt: 0 } }
    }
}

/// The number that a counter under a key holds.
pub open spec fn counter_in(kv: Kv, key: Seq<char>) -> Option<i64> {
    match kv.get(KeyView::Plain(key)) {
        Some(Meaning::Text(text)) => match parse_signed(text) {
            Ok(id) => Some(id as i64),
            Err(_) => None,
        },
        _ => None,
    }
}

/// A number that is given out is the one after what the counter held, and is
/// what the counter holds then.
pub proof fn law_taken_id_is_counted(
    kv: Kv,
    kv2: Kv,
    reply: Reply,
    key: String,
    attempt: u32,
    next: i64,
    revision: i64,
    id: i64,
)
    requires
        counter_in(kv, key@) == Some(id),
        kv.map[KeyView::Plain(key@)].1 == revision,
        next == successor(id),
        answers(
            kv,
            NextId::asks(NextId { key, phase: NextIdPhase::Write { attempt, next, revision } }),
            reply,
            kv2,
        ),
    ensures
        NextId::after(
            NextId { key, phase: NextIdPhase::Write { attempt, next, revision } },
            reply,
        ) == StepView::<NextId, i64>::Done(Ok(next)),
        counter_in(kv2, key@) == Some(next),
{
    law_decimal_reads_back(next);
    let k = KeyView::Plain(key@);
    let ws = counter_commit(key@, next, revision)->writes;
    assert(ws.drop_last() =~= Seq::empty());
    assert(kv.holds(CheckView::Unchanged(k, revision)));
    assert(Kv::all_written(kv.map, ws.drop_last(), kv.revision + 1) == kv.map);
}

/// A counter that another taker has written since it was read is not written:
/// the number is not given out.
pub proof fn law_stale_id_is_not_given(
    kv: Kv,
    kv2: Kv,
    reply: Reply,
    key: String,
    attempt: u32,
    next: i64,
    revision: i64,
)
    requires
        !kv.map.dom().contains(KeyView::Plain(key@)) || kv.map[KeyView::Plain(key@)].1 != revision,
        answers(
            kv,
            NextId::asks(NextId { key, phase: NextIdPhase::Write { attempt, next, revision } }),
            reply,
            kv2,
        ),
    ensures
        kv2 == kv,
        !(NextId::after(
            NextId { key, phase: NextIdPhase::Write { attempt, next, revision } },
            reply,
        ) matches StepView::Done(Ok(_))),
{
    let c = counter_commit(key@, next, revision)->checks;
    assert(c[0] == CheckView::Unchanged(KeyView::Plain(key@), revision));
    assert(!kv.holds(c[0]));
}

/// Numbers are counted up one by one; after the last comes the first.
pub proof fn law_numbers_are_counted_up(id: i64)
    ensures
        id < i64::MAX ==> successor(id) == id + 1,
        id == i64::MAX ==> successor(id) == i64::MIN,
{
}

/// A counter holds the number whose decimal form it is; what is no number counts as one.
pub proof fn law_counters_hold_numbers(id: i64, text: Seq<char>)
    ensures
        counter_value(dec(id as int)) == id,
        parse_signed(text) is Err ==> counter_value(text) == 1,
{
    law_decimal_reads_back(id);
}

/// The pause doubles from try to try, from one millisecond up to 1024.
pub proof fn law_pauses_double(attempt: u32)
    ensures
        backoff_ms(0) == 1,
        attempt < 10 ==> backoff_ms((attempt + 1) as u32) == 2 * backoff_ms(attempt),
        attempt >= 10 ==> backoff_ms(attempt) == 1024,
{
    vstd::arithmetic::power2::lemma2_to64();
}

/// A number is tried for ten times at most, or twenty times where it is waited in between.
pub proof fn law_tries_are_limited(s: NextId, n: u32)
    ensures
        n < 9 ==> GenerateId::again(n) == StepView::<GenerateId, i64>::Next(
            GenerateId::Read { retry: (n + 1) as u32 },
        ),
        n >= 9 ==> (GenerateId::again(n) matches StepView::Done(Err(_))),
        n < 19 ==> (s.again(n) matches StepView::Next(next) && next.key == s.key && next.phase
            == (NextIdPhase::Pause { attempt: n })),
        n >= 19 ==> (s.again(n) matches StepView::Done(Err(_))),
{
}

} // verus!
