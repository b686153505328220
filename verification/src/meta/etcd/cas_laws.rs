//! What an update of a value by a function of the caller's does as a whole.

use crate::meta::etcd::among_others::{kept, lemma_rest};
use crate::meta::etcd::atomic_laws::lemma_single_commit;
use crate::meta::etcd::kv::{answers, fails, revisions_tell, told, Event, KeyView, Kv, Meaning};
use crate::meta::store::ErrorView;
use crate::meta::transaction::{CasPhase, CasStepView, CasUpdate};
use vstd::prelude::*;

verus! {

/// A function of the caller's: from a value and its revision to the new value, or an error.
pub type Updater = spec_fn(Seq<char>, int) -> Result<String, ErrorView>;

/// Whether an update, from a state on and with a function of the caller's, runs through events and
/// ends with `end`. What others do between two events is left open, and any request may fail.
pub open spec fn cas_run(
    op: CasUpdate,
    update: Updater,
    events: Seq<Event>,
    end: Result<i64, ErrorView>,
    lossy: bool,
) -> bool
    decreases events.len(),
{
    &&& events.len() > 0
    &&& op.phase !is Update
    &&& answers(events[0].before, op.asks(), events[0].reply, events[0].after) || fails(
        events[0].before,
        op.asks(),
        events[0].reply,
        events[0].after,
        lossy,
    )
    &&& match op.after(events[0].reply) {
        CasStepView::Ask(op2) => cas_run(op2, update, events.drop_first(), end, lossy),
        CasStepView::Update { op: op2, current, revision } => match update(
            current@,
            revision as int,
        ) {
            Ok(value) => cas_run(
                op2.at(CasPhase::Write { value, revision }),
                update,
                events.drop_first(),
                end,
                lossy,
            ),
            Err(e) => events.len() == 1 && end == Err::<i64, ErrorView>(e),
        },
        CasStepView::Done(r) => events.len() == 1 && end == r,
    }
}

/// What the function of the caller's makes of what a key holds.
pub open spec fn value_after(kv: Kv, key: Seq<char>, update: Updater) -> Option<Seq<char>> {
    match kv.get(KeyView::Plain(key)) {
        Some(Meaning::Text(value)) => match update(value, kv.map[KeyView::Plain(key)].1) {
            Ok(made) => Some(made@),
            Err(_) => None,
        },
        _ => None,
    }
}

/// Whether an event takes the key in one step from what it holds at that moment to what the
/// function makes of it.
pub open spec fn swaps(ev: Event, key: Seq<char>, update: Updater) -> bool {
    value_after(ev.before, key, update) matches Some(made) && ev.after == ev.before.put(
        KeyView::Plain(key),
        Meaning::Text(made),
    )
}

/// Whether one event of a run takes the key to its new value, and no other event changes anything.
pub open spec fn swapped_once(
    events: Seq<Event>,
    from: int,
    key: Seq<char>,
    update: Updater,
) -> bool {
    exists|j: int|
        from <= j < events.len() && #[trigger] swaps(events[j], key, update) && forall|i: int|
            from <= i < events.len() && i != j ==> kept(#[trigger] events[i])
}

/// Whether no event of a run changes anything.
pub open spec fn all_kept(events: Seq<Event>, from: int) -> bool {
    forall|i: int| from <= i < events.len() ==> kept(#[trigger] events[i])
}

/// What an update knows of the value that it is to write.
spec fn write_known(op: CasUpdate, update: Updater, all: Seq<Event>) -> bool {
    op.phase matches CasPhase::Write { value, revision } ==> forall|i: int|
        0 <= i < all.len() && (#[trigger] all[i]).before.map.dom().contains(KeyView::Plain(op.key@))
            && all[i].before.map[KeyView::Plain(op.key@)].1 == revision ==> value_after(
            all[i].before,
            op.key@,
            update,
        ) == Some(value@)
}

/// An update from any state on.
proof fn lemma_cas_run(
    op: CasUpdate,
    update: Updater,
    all: Seq<Event>,
    at: int,
    end: Result<i64, ErrorView>,
    lossy: bool,
)
    requires
        revisions_tell(all),
        0 <= at <= all.len(),
        write_known(op, update, all),
        cas_run(op, update, all.skip(at), end, lossy),
    ensures
        all_kept(all, at) || (op.phase !is ReadBack && swapped_once(all, at, op.key@, update)),
        end matches Ok(revision) ==> {
            &&& op.phase is ReadBack || swapped_once(all, at, op.key@, update)
            &&& all.last().before.map.dom().contains(KeyView::Plain(op.key@))
            &&& all.last().before.map[KeyView::Plain(op.key@)].1 == revision
        },
    decreases all.len() - at,
{
    lemma_rest(all, at);
    let ev = all[at];
    let kv = ev.before;
    let k = KeyView::Plain(op.key@);
    match op.phase {
        CasPhase::Read => {
            if kv.map.dom().contains(k) {
                assert(told(all, k, kv.map[k].0, kv.map[k].1));
            }
        },
        CasPhase::Write { value, revision } => {
            lemma_single_commit(kv, k, Meaning::Text(value@));
            let cs = op.asks()->checks;
            if kv.all_hold(cs) {
                assert(kv.holds(cs[0]));
                assert(value_after(all[at].before, op.key@, update) == Some(value@));
                assert(ev.after == kv.put(k, Meaning::Text(value@)) ==> swaps(
                    all[at],
                    op.key@,
                    update,
                ));
            }
        },
        _ => {},
    }
    match op.after(ev.reply) {
        CasStepView::Ask(op2) => {
            lemma_cas_run(op2, update, all, at + 1, end, lossy);
            lemma_one_more(all, at, op.key@, update);
        },
        CasStepView::Update { op: op2, current, revision } => {
            if let Ok(value) = update(current@, revision as int) {
                let op3 = op2.at(CasPhase::Write { value, revision });
                assert(write_known(op3, update, all));
                lemma_cas_run(op3, update, all, at + 1, end, lossy);
                lemma_one_more(all, at, op.key@, update);
            }
        },
        CasStepView::Done(_) => {
            assert(kept(all[at]) || swaps(all[at], op.key@, update));
        },
    }
}

/// An event more at the beginning.
proof fn lemma_one_more(all: Seq<Event>, at: int, key: Seq<char>, update: Updater)
    requires
        0 <= at < all.len(),
    ensures
        kept(all[at]) && all_kept(all, at + 1) ==> all_kept(all, at),
        kept(all[at]) && swapped_once(all, at + 1, key, update) ==> swapped_once(
            all,
            at,
            key,
            update,
        ),
        swaps(all[at], key, update) && all_kept(all, at + 1) ==> swapped_once(all, at, key, update),
{
    if kept(all[at]) && swapped_once(all, at + 1, key, update) {
        let j = choose|j: int|
            at + 1 <= j < all.len() && #[trigger] swaps(all[j], key, update) && forall|i: int|
                at + 1 <= i < all.len() && i != j ==> kept(#[trigger] all[i]);
        assert(swaps(all[j], key, update));
    }
}

/// Whatever others do and whatever fails, an update takes the key at most once to a new value, in
/// one step from the value that it then holds to what the function makes of it, and changes
/// nothing else. One that succeeds has done so, and tells the revision that the key has at its
/// last request.
pub proof fn law_cas_update_among_others(
    key: String,
    max_retries: usize,
    update: Updater,
    events: Seq<Event>,
    end: Result<i64, ErrorView>,
    lossy: bool,
)
    requires
        revisions_tell(events),
        cas_run(
            CasUpdate { key, max_retries, retry: 0, phase: CasPhase::Read },
            update,
            events,
            end,
            lossy,
        ),
    ensures
        all_kept(events, 0) || swapped_once(events, 0, key@, update),
        end matches Ok(revision) ==> {
            &&& swapped_once(events, 0, key@, update)
            &&& events.last().before.map.dom().contains(KeyView::Plain(key@))
            &&& events.last().before.map[KeyView::Plain(key@)].1 == revision
        },
{
    assert(events.skip(0) =~= events);
    let op = CasUpdate { key, max_retries, retry: 0, phase: CasPhase::Read };
    lemma_cas_run(op, update, events, 0, end, lossy);
}

} // verus!
