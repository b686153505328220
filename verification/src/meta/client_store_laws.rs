//! A caching client over the store on the key-value service.

use crate::meta::cache::CacheView;
use crate::meta::client_calls::{
    begun, is_store_request, stands_for, went_on, AnswerView, CallStepView,
};
use crate::meta::client_laws::{call_runs, law_client_serves_as_the_store, truthful};
use crate::meta::etcd::kv::{Kv, Reply};
use crate::meta::etcd::tree_laws::{
    fresh_numbers, keeps_a_tree, law_store_answers_for_its_tree, store_serves, tree_of,
};
use crate::vfs::op::{FsReply, FsRequest, FsRequestView};
use crate::vfs::tree::{fs_answers, Tree};
use vstd::prelude::*;

verus! {

/// One request of a client to the store: what is asked, the time on the store's clock, what the
/// service replied, the time on the client's clock, the answer, and the service after it.
pub struct StoreTurn {
    pub req: FsRequest,
    pub store_now: i64,
    pub replies: Seq<(Reply, Kv)>,
    pub now: u64,
    pub reply: FsReply,
    pub after: Kv,
}

/// Whether a call of a client, from a step on, runs through turns of the store that nobody
/// disturbs, and ends with caches, a service state and an answer.
pub open spec fn call_runs_on_store(
    c: CacheView,
    kv: Kv,
    step: CallStepView,
    turns: Seq<StoreTurn>,
    end: (CacheView, Kv, AnswerView),
) -> bool
    decreases turns.len(),
{
    match step {
        CallStepView::Answer(a) => turns.len() == 0 && end == (c, kv, a),
        CallStepView::Ask(s) => {
            let turn = turns[0];
            &&& turns.len() > 0
            &&& turn.req@ == s.asks()
            &&& store_serves(kv, turn.req, turn.store_now, turn.replies, turn.reply, turn.after)
            &&& fresh_numbers(kv, turn.replies)
            &&& call_runs_on_store(
                went_on(c, turn.now, s, turn.reply).0,
                turn.after,
                went_on(c, turn.now, s, turn.reply).1,
                turns.drop_first(),
                end,
            )
        },
    }
}

/// The turns of a call as it is seen on the trees that the keys stand for.
pub open spec fn on_trees(turns: Seq<StoreTurn>, bytes: Map<(i64, int), u8>) -> Seq<
    (u64, FsReply, Tree),
> {
    turns.map_values(
        |turn: StoreTurn| (turn.now, turn.reply, tree_of(turn.after, bytes)),
    )
}

/// A call on the store is a call on the trees that its keys stand for.
proof fn lemma_call_on_trees(
    c: CacheView,
    kv: Kv,
    bytes: Map<(i64, int), u8>,
    step: CallStepView,
    turns: Seq<StoreTurn>,
    end: (CacheView, Kv, AnswerView),
)
    requires
        keeps_a_tree(kv),
        call_runs_on_store(c, kv, step, turns, end),
    ensures
        keeps_a_tree(end.1),
        call_runs(
            c,
            tree_of(kv, bytes),
            step,
            on_trees(turns, bytes),
            (end.0, tree_of(end.1, bytes), end.2),
        ),
    decreases turns.len(),
{
    if let CallStepView::Ask(s) = step {
        let turn = turns[0];
        law_store_answers_for_its_tree(
            kv,
            bytes,
            turn.req,
            turn.store_now,
            turn.replies,
            turn.reply,
            turn.after,
        );
        let (c2, next) = went_on(c, turn.now, s, turn.reply);
        lemma_call_on_trees(c2, turn.after, bytes, next, turns.drop_first(), end);
        assert(on_trees(turns, bytes).drop_first() =~= on_trees(turns.drop_first(), bytes));
    }
}

/// A client with truthful caches over a store that it alone uses answers what the tree of the keys
/// says, whether it asks the store or not; the keys after the call are those of the tree after it,
/// and the caches stay truthful.
pub proof fn law_cached_store_answers_for_its_tree(
    c: CacheView,
    kv: Kv,
    bytes: Map<(i64, int), u8>,
    now: u64,
    req: FsRequestView,
    turns: Seq<StoreTurn>,
    end: (CacheView, Kv, AnswerView),
    reply: FsReply,
)
    requires
        c.sound(),
        keeps_a_tree(kv),
        truthful(c, tree_of(kv, bytes)),
        is_store_request(req),
        call_runs_on_store(begun(c, now, req).0, kv, begun(c, now, req).1, turns, end),
        stands_for(end.2, reply),
    ensures
        fs_answers(tree_of(kv, bytes), req, reply, tree_of(end.1, bytes)),
        keeps_a_tree(end.1),
        end.0.sound(),
        truthful(end.0, tree_of(end.1, bytes)),
{
    let (c1, step) = begun(c, now, req);
    lemma_call_on_trees(c1, kv, bytes, step, turns, end);
    law_client_serves_as_the_store(
        c,
        tree_of(kv, bytes),
        now,
        req,
        on_trees(turns, bytes),
        (end.0, tree_of(end.1, bytes), end.2),
        reply,
    );
}

} // verus!
