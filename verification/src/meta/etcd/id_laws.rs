//! Numbers that several takers take from one counter are different.

use crate::meta::etcd::among_others::{kept, kept_until_last, lemma_rest};
use crate::meta::etcd::ids::{
    counter_begin, counter_commit, counter_value, successor, GenerateId, InitCounter, NextId,
    NextIdPhase,
};
use crate::meta::etcd::kv::{
    answers, lemma_written_push, revisions_tell, runs_among_others, told, CheckView, Event, KeyView,
    Kv, Meaning, Operation, Reply, Value, WriteView,
};
use crate::meta::store::{ErrorView, StepView};
use crate::text::{dec, dec_nat, law_decimal_reads_back};
use vstd::prelude::*;

verus! {

/// The number that a counter stands at. One that is absent, or no number, stands at one.
pub open spec fn stands_at(kv: Kv, key: Seq<char>) -> i64 {
    match kv.get(KeyView::Plain(key)) {
        Some(Meaning::Text(text)) => counter_value(text),
        _ => 1,
    }
}

/// Whether an event takes a number: it is the one after that at which the counter stands, and the
/// counter stands at it then.
pub open spec fn takes(ev: Event, key: Seq<char>, n: i64) -> bool {
    n == successor(stands_at(ev.before, key)) && stands_at(ev.after, key) == n
}

/// Whether the last event of a taking does what its result says: the number is taken at that
/// moment, and nothing is changed where there is none. Where replies can be lost, a number may be
/// taken that nobody gets.
pub open spec fn taken_last(
    ev: Event,
    key: Seq<char>,
    end: Result<i64, ErrorView>,
    lossy: bool,
) -> bool {
    match end {
        Ok(n) => takes(ev, key, n),
        Err(_) => kept(ev) || (lossy && exists|n: i64| takes(ev, key, n)),
    }
}

/// A transaction that writes a counter lets it stand at the number.
proof fn lemma_counter_written(kv: Kv, key: Seq<char>, n: i64)
    ensures
        stands_at(
            kv.commit(
                seq![WriteView::Put(KeyView::Plain(key), Meaning::Text(dec(n as int)))],
            ),
            key,
        ) == n,
{
    let w = WriteView::Put(KeyView::Plain(key), Meaning::Text(dec(n as int)));
    lemma_written_push(kv.map, Seq::empty(), w, kv.revision + 1);
    assert(seq![w] =~= Seq::empty().push(w));
    law_decimal_reads_back(n);
}

/// The text that a counter begins with is the number two.
proof fn lemma_begins_with_two()
    ensures
        "2"@ == dec(2),
{
    reveal_strlit("2");
    reveal_with_fuel(dec_nat, 2);
    assert("2"@ =~= dec(2));
}

/// Whether what a taker read tells the number that it is to take.
spec fn next_told(all: Seq<Event>, key: Seq<char>, next: i64, revision: i64) -> bool {
    forall|i: int|
        0 <= i < all.len() && (#[trigger] all[i]).before.holds(
            CheckView::Unchanged(KeyView::Plain(key), revision),
        ) ==> next == successor(stands_at(all[i].before, key))
}

/// A transaction on a counter whose condition holds takes the number.
proof fn lemma_counter_held(all: Seq<Event>, at: int, key: Seq<char>, next: i64, revision: i64)
    requires
        0 <= at < all.len(),
    ensures
        ({
            let kv = all[at].before;
            let begin = counter_begin(key);
            kv.all_hold(begin->checks) ==> all[at].after == kv.commit(begin->writes) ==> takes(
                all[at],
                key,
                2,
            )
        }),
        ({
            let kv = all[at].before;
            let write = counter_commit(key, next, revision);
            next_told(all, key, next, revision) && kv.all_hold(write->checks) ==> all[at].after
                == kv.commit(write->writes) ==> takes(all[at], key, next)
        }),
{
    let kv = all[at].before;
    lemma_begins_with_two();
    lemma_counter_written(kv, key, 2);
    lemma_counter_written(kv, key, next);
    let begin = counter_begin(key)->checks;
    let write = counter_commit(key, next, revision)->checks;
    if kv.all_hold(begin) {
        assert(kv.holds(begin[0]));
    }
    if kv.all_hold(write) {
        assert(kv.holds(write[0]));
        assert(all[at].before.holds(CheckView::Unchanged(KeyView::Plain(key), revision)));
    }
}

/// What the key of a counter holds when it is read is known from then on.
proof fn lemma_counter_read(
    all: Seq<Event>,
    at: int,
    key: Seq<char>,
    text: Seq<char>,
    revision: i64,
)
    requires
        revisions_tell(all),
        0 <= at < all.len(),
        all[at].before.map.dom().contains(KeyView::Plain(key)),
        all[at].before.map[KeyView::Plain(key)] == (Meaning::Text(text), revision as int),
    ensures
        next_told(all, key, successor(counter_value(text)), revision),
{
    let k = KeyView::Plain(key);
    assert(told(all, k, Meaning::Text(text), revision as int));
}

/// A taking from any state on.
proof fn lemma_next_among(
    s: NextId,
    all: Seq<Event>,
    at: int,
    end: Result<i64, ErrorView>,
    lossy: bool,
)
    requires
        revisions_tell(all),
        0 <= at <= all.len(),
        s.phase matches NextIdPhase::Write { next, revision, .. } ==> next_told(
            all,
            s.key@,
            next,
            revision,
        ),
        runs_among_others::<NextId>(s, all.skip(at), end, lossy),
    ensures
        forall|i: int| at <= i < all.len() - 1 ==> kept(#[trigger] all[i]),
        taken_last(all.last(), s.key@, end, lossy),
    decreases all.len() - at,
{
    lemma_rest(all, at);
    let ev = all[at];
    match s.phase {
        NextIdPhase::Read { .. } => {
            if answers(ev.before, NextId::asks(s), ev.reply, ev.after) {
                if let Reply::Value(Some((Value::Text(text), revision))) = ev.reply {
                    lemma_counter_read(all, at, s.key@, text@, revision);
                }
            }
        },
        NextIdPhase::Begin { .. } => lemma_counter_held(all, at, s.key@, 0, 0),
        NextIdPhase::Write { next, revision, .. } => lemma_counter_held(
            all,
            at,
            s.key@,
            next,
            revision,
        ),
        _ => {},
    }
    match NextId::after(s, ev.reply) {
        StepView::Next(s2) => lemma_next_among(s2, all, at + 1, end, lossy),
        StepView::Done(_) => {},
    }
}

/// A number is taken at one moment, whatever others do and whatever fails.
pub proof fn law_next_id_at_one_moment(
    key: String,
    events: Seq<Event>,
    end: Result<i64, ErrorView>,
    lossy: bool,
)
    requires
        revisions_tell(events),
        runs_among_others::<NextId>(
            NextId { key, phase: NextIdPhase::Read { attempt: 0 } },
            events,
            end,
            lossy,
        ),
    ensures
        kept_until_last(events),
        taken_last(events.last(), key@, end, lossy),
{
    assert(events.skip(0) =~= events);
    let s = NextId { key, phase: NextIdPhase::Read { attempt: 0 } };
    lemma_next_among(s, events, 0, end, lossy);
}

/// A taking of the other counter from any state on.
proof fn lemma_generate_among(
    s: GenerateId,
    all: Seq<Event>,
    at: int,
    end: Result<i64, ErrorView>,
    lossy: bool,
)
    requires
        revisions_tell(all),
        0 <= at <= all.len(),
        s matches GenerateId::Write { next, revision, .. } ==> next_told(
            all,
            "slayerfs:next_inode_id"@,
            next,
            revision,
        ),
        runs_among_others::<GenerateId>(s, all.skip(at), end, lossy),
    ensures
        forall|i: int| at <= i < all.len() - 1 ==> kept(#[trigger] all[i]),
        taken_last(all.last(), "slayerfs:next_inode_id"@, end, lossy),
    decreases all.len() - at,
{
    let key = "slayerfs:next_inode_id"@;
    lemma_rest(all, at);
    let ev = all[at];
    match s {
        GenerateId::Read { .. } => {
            if answers(ev.before, GenerateId::asks(s), ev.reply, ev.after) {
                if let Reply::Value(Some((Value::Text(text), revision))) = ev.reply {
                    lemma_counter_read(all, at, key, text@, revision);
                }
            }
        },
        GenerateId::Begin { .. } => lemma_counter_held(all, at, key, 0, 0),
        GenerateId::Write { next, revision, .. } => lemma_counter_held(
            all,
            at,
            key,
            next,
            revision,
        ),
    }
    match GenerateId::after(s, ev.reply) {
        StepView::Next(s2) => lemma_generate_among(s2, all, at + 1, end, lossy),
        StepView::Done(_) => {},
    }
}

/// A number of the counter `slayerfs:next_inode_id` is taken at one moment, whatever others do and
/// whatever fails.
pub proof fn law_generate_id_at_one_moment(
    events: Seq<Event>,
    end: Result<i64, ErrorView>,
    lossy: bool,
)
    requires
        revisions_tell(events),
        runs_among_others::<GenerateId>(GenerateId::Read { retry: 0 }, events, end, lossy),
    ensures
        kept_until_last(events),
        taken_last(events.last(), "slayerfs:next_inode_id"@, end, lossy),
{
    assert(events.skip(0) =~= events);
    lemma_generate_among(GenerateId::Read { retry: 0 }, events, 0, end, lossy);
}

/// The preparation of a counter resets nothing: every request leaves the service as it is, or
/// begins a counter that is absent at that moment.
pub proof fn law_preparation_resets_nothing(
    key: String,
    events: Seq<Event>,
    end: Result<(), ErrorView>,
    lossy: bool,
    i: int,
)
    requires
        revisions_tell(events),
        runs_among_others::<InitCounter>(InitCounter { key, absent: false }, events, end, lossy),
        0 <= i < events.len(),
    ensures
        kept(events[i]) || (takes(events[i], key@, 2)
            && !events[i].before.map.dom().contains(KeyView::Plain(key@))),
{
    reveal_with_fuel(runs_among_others, 3);
    assert(events.len() <= 2);
    lemma_counter_held(events, i, key@, 0, 0);
    let begin = counter_begin(key@)->checks;
    if events[i].before.all_hold(begin) {
        assert(events[i].before.holds(begin[0]));
    }
}

/// Whether a history of the service only counts: every step leaves a counter as it is, or lets it
/// stand at the next number.
pub open spec fn only_counts(history: Seq<Kv>, key: Seq<char>) -> bool {
    forall|t: int|
        0 <= t < history.len() - 1 ==> {
            let before = stands_at(#[trigger] history[t], key);
            let after = stands_at(history[t + 1], key);
            after == before || after == before + 1
        }
}

/// A counter that only counts never falls.
proof fn lemma_counter_grows(history: Seq<Kv>, key: Seq<char>, i: int, j: int)
    requires
        only_counts(history, key),
        0 <= i <= j < history.len(),
    ensures
        stands_at(history[i], key) <= stands_at(history[j], key),
    decreases j - i,
{
    if i < j {
        lemma_counter_grows(history, key, i, j - 1);
        assert(stands_at(history[j - 1], key) <= stands_at(history[j - 1 + 1], key));
    }
}

/// Whether an event is a step of a history.
pub open spec fn is_step(ev: Event, history: Seq<Kv>, t: int) -> bool {
    0 <= t < history.len() - 1 && ev.before == history[t] && ev.after == history[t + 1]
}

/// Two takers never get the same number, whatever else happens to the service, as long as the
/// counter is only counted and the numbers do not run out.
pub proof fn law_two_takers_get_two_numbers(
    key: String,
    events: Seq<Event>,
    a: i64,
    others: Seq<Event>,
    b: i64,
    history: Seq<Kv>,
    i: int,
    j: int,
)
    requires
        revisions_tell(events),
        revisions_tell(others),
        runs_among_others::<NextId>(
            NextId { key, phase: NextIdPhase::Read { attempt: 0 } },
            events,
            Ok(a),
            true,
        ),
        runs_among_others::<NextId>(
            NextId { key, phase: NextIdPhase::Read { attempt: 0 } },
            others,
            Ok(b),
            true,
        ),
        only_counts(history, key@),
        is_step(events.last(), history, i),
        is_step(others.last(), history, j),
        i != j,
        stands_at(history[i], key@) < i64::MAX,
        stands_at(history[j], key@) < i64::MAX,
    ensures
        a != b,
{
    law_next_id_at_one_moment(key, events, Ok(a), true);
    law_next_id_at_one_moment(key, others, Ok(b), true);
    if i < j {
        lemma_counter_grows(history, key@, i + 1, j);
    } else {
        lemma_counter_grows(history, key@, j + 1, i);
    }
}

/// Two takers of the counter `slayerfs:next_inode_id` never get the same number.
pub proof fn law_two_generators_get_two_numbers(
    events: Seq<Event>,
    a: i64,
    others: Seq<Event>,
    b: i64,
    history: Seq<Kv>,
    i: int,
    j: int,
)
    requires
        revisions_tell(events),
        revisions_tell(others),
        runs_among_others::<GenerateId>(GenerateId::Read { retry: 0 }, events, Ok(a), true),
        runs_among_others::<GenerateId>(GenerateId::Read { retry: 0 }, others, Ok(b), true),
        only_counts(history, "slayerfs:next_inode_id"@),
        is_step(events.last(), history, i),
        is_step(others.last(), history, j),
        i != j,
        stands_at(history[i], "slayerfs:next_inode_id"@) < i64::MAX,
        stands_at(history[j], "slayerfs:next_inode_id"@) < i64::MAX,
    ensures
        a != b,
{
    let key = "slayerfs:next_inode_id"@;
    law_generate_id_at_one_moment(events, Ok(a), true);
    law_generate_id_at_one_moment(others, Ok(b), true);
    if i < j {
        lemma_counter_grows(history, key, i + 1, j);
    } else {
        lemma_counter_grows(history, key, j + 1, i);
    }
}

} // verus!
