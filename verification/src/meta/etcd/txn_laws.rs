//! What the transactions on keys make of the service.

use crate::meta::etcd::kv::{
    answers, runs, CheckView, KeyView, Kv, Meaning, Operation, Reply, WriteView,
};
use crate::meta::etcd::txn::{
    create_writes, deletes, others, puts, target_exists, value_for, AtomicCreate, AtomicDelete,
    AtomicRename, AtomicRenamePhase, Entry,
};
use crate::meta::store::{ErrorView, StepView};
use crate::meta::transaction::{CreateIfAbsent, DeleteIfPresent};
use vstd::prelude::*;

verus! {

/// Whether a key is that of an entry.
pub open spec fn is_entry_key(entries: Seq<Entry>, k: KeyView) -> bool {
    exists|i: int| 0 <= i < entries.len() && k == KeyView::Plain((#[trigger] entries[i]).0@)
}

/// Whether an entry is the last with its key.
pub open spec fn is_last(entries: Seq<Entry>, i: int) -> bool {
    0 <= i < entries.len() && forall|j: int|
        i < j < entries.len() ==> (#[trigger] entries[j]).0@ != entries[i].0@
}

/// Whether an entry is the first with a key.
pub open spec fn is_first(entries: Seq<Entry>, i: int, key: Seq<char>) -> bool {
    &&& 0 <= i < entries.len()
    &&& entries[i].0@ == key
    &&& forall|j: int| 0 <= j < i ==> (#[trigger] entries[j]).0@ != key
}

/// Whether a key is one of several.
pub open spec fn is_one_of(keys: Seq<String>, k: KeyView) -> bool {
    exists|i: int| 0 <= i < keys.len() && k == KeyView::Plain((#[trigger] keys[i])@)
}

/// What entries make of the keys.
proof fn lemma_puts(map: Map<KeyView, (Meaning, int)>, entries: Seq<Entry>, rev: int, k: KeyView)
    ensures
        ({
            let after = Kv::all_written(map, puts(entries), rev);
            &&& !is_entry_key(entries, k) ==> (after.dom().contains(k) <==> map.dom().contains(k))
                && (map.dom().contains(k) ==> after[k] == map[k])
            &&& forall|i: int| #[trigger]
                is_last(entries, i) ==> after.dom().contains(KeyView::Plain(entries[i].0@)) && after[
                KeyView::Plain(entries[i].0@)] == (Meaning::Text(entries[i].1@), rev)
        }),
    decreases entries.len(),
{
    let after = Kv::all_written(map, puts(entries), rev);
    if entries.len() > 0 {
        let init = entries.drop_last();
        let last = entries.len() - 1;
        assert(puts(entries).drop_last() =~= puts(init));
        lemma_puts(map, init, rev, k);
        if !is_entry_key(entries, k) {
            assert(k != KeyView::Plain(entries[last].0@));
            assert forall|i: int| 0 <= i < init.len() implies k != KeyView::Plain(
                (#[trigger] init[i]).0@,
            ) by {
                assert(k != KeyView::Plain(entries[i].0@));
            }
        }
        assert forall|i: int| #[trigger] is_last(entries, i) implies after.dom().contains(
            KeyView::Plain(entries[i].0@),
        ) && after[KeyView::Plain(entries[i].0@)] == (Meaning::Text(entries[i].1@), rev) by {
            if i < last {
                assert(entries[last].0@ != entries[i].0@);
                assert(is_last(init, i)) by {
                    assert forall|j: int| i < j < init.len() implies (#[trigger] init[j]).0@
                        != init[i].0@ by {
                        assert(entries[j].0@ != entries[i].0@);
                    }
                }
            }
        }
    } else {
        assert(puts(entries) =~= Seq::empty());
    }
}

/// What deletions make of the keys.
proof fn lemma_deletes(map: Map<KeyView, (Meaning, int)>, keys: Seq<String>, rev: int, k: KeyView)
    ensures
        ({
            let after = Kv::all_written(map, deletes(keys), rev);
            &&& is_one_of(keys, k) ==> !after.dom().contains(k)
            &&& !is_one_of(keys, k) ==> (after.dom().contains(k) <==> map.dom().contains(k)) && (
            map.dom().contains(k) ==> after[k] == map[k])
        }),
    decreases keys.len(),
{
    if keys.len() > 0 {
        let init = keys.drop_last();
        let last = keys.len() - 1;
        assert(deletes(keys).drop_last() =~= deletes(init));
        lemma_deletes(map, init, rev, k);
        if is_one_of(keys, k) {
            let i = choose|i: int|
                0 <= i < keys.len() && k == KeyView::Plain((#[trigger] keys[i])@);
            if i < last {
                assert(k == KeyView::Plain(init[i]@));
            }
        } else {
            assert(k != KeyView::Plain(keys[last]@));
            assert forall|i: int| 0 <= i < init.len() implies k != KeyView::Plain(
                (#[trigger] init[i])@,
            ) by {
                assert(k != KeyView::Plain(keys[i]@));
            }
        }
    } else {
        assert(deletes(keys) =~= Seq::empty());
    }
}

/// Writes one after the other.
proof fn lemma_in_turn(
    map: Map<KeyView, (Meaning, int)>,
    a: Seq<WriteView>,
    b: Seq<WriteView>,
    rev: int,
)
    ensures
        Kv::all_written(map, a + b, rev) == Kv::all_written(
            Kv::all_written(map, a, rev),
            b,
            rev,
        ),
    decreases b.len(),
{
    if b.len() > 0 {
        lemma_in_turn(map, a, b.drop_last(), rev);
        assert((a + b).drop_last() =~= a + b.drop_last());
    } else {
        assert(a + b =~= a);
    }
}

/// Entries with other keys than one are those of all, but for that key.
proof fn lemma_others(entries: Seq<Entry>, key: Seq<char>, i: int)
    ensures
        forall|j: int|
            0 <= j < others(entries, key).len() ==> (#[trigger] others(entries, key)[j]).0@ != key
                && entries.contains(others(entries, key)[j]),
        is_last(entries, i) && entries[i].0@ != key ==> exists|j: int| #[trigger]
            is_last(others(entries, key), j) && others(entries, key)[j] == entries[i],
    decreases entries.len(),
{
    if entries.len() > 0 {
        let init = entries.drop_last();
        let last = entries.len() - 1;
        lemma_others(init, key, i);
        let before = others(init, key);
        let all = others(entries, key);
        assert forall|j: int| 0 <= j < all.len() implies (#[trigger] all[j]).0@ != key
            && entries.contains(all[j]) by {
            if j < before.len() {
                assert(all[j] == before[j]);
                assert(init.contains(before[j]));
                let n = choose|n: int| 0 <= n < init.len() && init[n] == before[j];
                assert(entries[n] == before[j]);
            } else {
                assert(entries[last] == all[j]);
            }
        }
        if is_last(entries, i) && entries[i].0@ != key {
            if i == last {
                assert(is_last(all, all.len() - 1));
            } else {
                assert(entries[last].0@ != entries[i].0@);
                assert(is_last(init, i)) by {
                    assert forall|j: int| i < j < init.len() implies (#[trigger] init[j]).0@
                        != init[i].0@ by {
                        assert(entries[j].0@ != entries[i].0@);
                    }
                }
                let j = choose|j: int| #[trigger] is_last(before, j) && before[j] == init[i];
                assert(is_last(all, j)) by {
                    assert forall|n: int| j < n < all.len() implies (#[trigger] all[n]).0@
                        != all[j].0@ by {
                        if n < before.len() {
                            assert(before[n].0@ != before[j].0@);
                        }
                    }
                }
            }
        }
    }
}

/// The value of the first entry with a key.
proof fn lemma_value_for(entries: Seq<Entry>, key: Seq<char>, i: int)
    ensures
        is_first(entries, i, key) ==> value_for(entries, key) == entries[i].1@,
        !is_entry_key(entries, KeyView::Plain(key)) ==> value_for(entries, key) == Seq::<
            char,
        >::empty(),
    decreases entries.len(),
{
    if entries.len() > 0 {
        let rest = entries.skip(1);
        if entries[0].0@ != key {
            lemma_value_for(rest, key, i - 1);
            if is_first(entries, i, key) {
                assert(rest[i - 1] == entries[i]);
                assert forall|j: int| 0 <= j < i - 1 implies (#[trigger] rest[j]).0@ != key by {
                    assert(entries[j + 1].0@ != key);
                }
                assert(is_first(rest, i - 1, key));
            }
            if !is_entry_key(entries, KeyView::Plain(key)) {
                assert forall|j: int| 0 <= j < rest.len() implies KeyView::Plain(key)
                    != KeyView::Plain((#[trigger] rest[j]).0@) by {
                    assert(entries[j + 1].0@ != key);
                }
            }
        } else {
            if is_first(entries, i, key) && i > 0 {
                assert(entries[0].0@ != key);
            }
            if !is_entry_key(entries, KeyView::Plain(key)) {
                assert(KeyView::Plain(key) != KeyView::Plain(entries[0].0@));
            }
        }
    }
}

/// Where the checked key does not exist, entries are created: the last entry with a key is what
/// the key then holds, and all other keys hold what they held. Where it exists, nothing changes.
pub proof fn law_entries_are_created(
    kv: Kv,
    kv2: Kv,
    s: CreateIfAbsent,
    reply: Reply,
    i: int,
    k: KeyView,
)
    requires
        answers(kv, CreateIfAbsent::asks(s), reply, kv2),
    ensures
        kv.get(KeyView::Plain(s.check_key@)) is None ==> {
            &&& CreateIfAbsent::after(s, reply) == StepView::<CreateIfAbsent, ()>::Done(Ok(()))
            &&& is_last(s.entries@, i) ==> kv2.get(KeyView::Plain(s.entries@[i].0@)) == Some(
                Meaning::Text(s.entries@[i].1@),
            )
            &&& !is_entry_key(s.entries@, k) ==> kv2.get(k) == kv.get(k)
        },
        kv.get(KeyView::Plain(s.check_key@)) is Some ==> {
            &&& kv2 == kv
            &&& CreateIfAbsent::after(s, reply) == StepView::<CreateIfAbsent, ()>::Done(
                Err(ErrorView::AlreadyExists { parent: 0, name: s.check_key@ }),
            )
        },
{
    let cs = CreateIfAbsent::asks(s)->checks;
    assert(cs[0] == CheckView::Absent(KeyView::Plain(s.check_key@)));
    assert(kv.all_hold(cs) <==> kv.holds(cs[0]));
    lemma_puts(kv.map, s.entries@, kv.revision + 1, k);
}

/// Where the checked key exists, the keys are deleted, and all others hold what they held. Where
/// it does not exist, nothing changes.
pub proof fn law_keys_are_deleted(kv: Kv, kv2: Kv, s: DeleteIfPresent, reply: Reply, k: KeyView)
    requires
        answers(kv, DeleteIfPresent::asks(s), reply, kv2),
    ensures
        kv.get(KeyView::Plain(s.check_key@)) is Some ==> {
            &&& DeleteIfPresent::after(s, reply) == StepView::<DeleteIfPresent, ()>::Done(Ok(()))
            &&& is_one_of(s.keys@, k) ==> kv2.get(k) is None
            &&& !is_one_of(s.keys@, k) ==> kv2.get(k) == kv.get(k)
        },
        kv.get(KeyView::Plain(s.check_key@)) is None ==> {
            &&& kv2 == kv
            &&& DeleteIfPresent::after(s, reply) == StepView::<DeleteIfPresent, ()>::Done(
                Err(ErrorView::NotFound(0)),
            )
        },
{
    let cs = DeleteIfPresent::asks(s)->checks;
    assert(cs[0] == CheckView::Present(KeyView::Plain(s.check_key@)));
    assert(kv.all_hold(cs) <==> kv.holds(cs[0]));
    lemma_deletes(kv.map, s.keys@, kv.revision + 1, k);
}

/// Where the checked key does not exist, it is told that the entries were created: the checked key
/// holds the value of its first entry, or nothing but an empty text where it has none, every other
/// key of an entry holds the value of its last, and all other keys hold what they held. Where it
/// exists, it is told that nothing was, and nothing changes.
pub proof fn law_several_are_created(
    kv: Kv,
    kv2: Kv,
    s: AtomicCreate,
    reply: Reply,
    i: int,
    k: KeyView,
)
    requires
        answers(kv, AtomicCreate::asks(s), reply, kv2),
    ensures
        kv.get(KeyView::Plain(s.forward_key@)) is None ==> {
            let key = KeyView::Plain(s.forward_key@);
            &&& AtomicCreate::after(s, reply) == StepView::<AtomicCreate, bool>::Done(Ok(true))
            &&& is_first(s.operations@, i, s.forward_key@) ==> kv2.get(key) == Some(
                Meaning::Text(s.operations@[i].1@),
            )
            &&& !is_entry_key(s.operations@, key) ==> kv2.get(key) == Some(
                Meaning::Text(Seq::empty()),
            )
            &&& is_last(s.operations@, i) && s.operations@[i].0@ != s.forward_key@ ==> kv2.get(
                KeyView::Plain(s.operations@[i].0@),
            ) == Some(Meaning::Text(s.operations@[i].1@))
            &&& k != key && !is_entry_key(s.operations@, k) ==> kv2.get(k) == kv.get(k)
        },
        kv.get(KeyView::Plain(s.forward_key@)) is Some ==> {
            &&& kv2 == kv
            &&& AtomicCreate::after(s, reply) == StepView::<AtomicCreate, bool>::Done(Ok(false))
        },
{
    let cs = AtomicCreate::asks(s)->checks;
    let key = KeyView::Plain(s.forward_key@);
    assert(cs[0] == CheckView::Absent(key));
    assert(kv.all_hold(cs) <==> kv.holds(cs[0]));
    let entries = s.operations@;
    let rest = others(entries, s.forward_key@);
    let first = seq![
        WriteView::Put(key, Meaning::Text(value_for(entries, s.forward_key@))),
    ];
    let rev = kv.revision + 1;
    assert(create_writes(s.forward_key@, entries) =~= first + puts(rest));
    lemma_in_turn(kv.map, first, puts(rest), rev);
    assert(first.drop_last() =~= Seq::empty());
    reveal_with_fuel(Kv::all_written, 2);
    let m1 = Kv::all_written(kv.map, first, rev);
    lemma_value_for(entries, s.forward_key@, i);
    lemma_others(entries, s.forward_key@, i);
    lemma_puts(m1, rest, rev, key);
    lemma_puts(m1, rest, rev, k);
    assert(!is_entry_key(rest, key));
    if !is_entry_key(entries, k) && is_entry_key(rest, k) {
        let j = choose|j: int| 0 <= j < rest.len() && k == KeyView::Plain((#[trigger] rest[j]).0@);
        assert(entries.contains(rest[j]));
        let n = choose|n: int| 0 <= n < entries.len() && entries[n] == rest[j];
        assert(k == KeyView::Plain(entries[n].0@));
    }
}

/// Where the checked key exists, it is told that the keys were deleted; they are, and all others
/// hold what they held. Where it does not exist, it is told that nothing was, and nothing changes.
pub proof fn law_several_are_deleted(kv: Kv, kv2: Kv, s: AtomicDelete, reply: Reply, k: KeyView)
    requires
        answers(kv, AtomicDelete::asks(s), reply, kv2),
    ensures
        kv.get(KeyView::Plain(s.check_key@)) is Some ==> {
            &&& AtomicDelete::after(s, reply) == StepView::<AtomicDelete, bool>::Done(Ok(true))
            &&& is_one_of(s.delete_keys@, k) ==> kv2.get(k) is None
            &&& !is_one_of(s.delete_keys@, k) ==> kv2.get(k) == kv.get(k)
        },
        kv.get(KeyView::Plain(s.check_key@)) is None ==> {
            &&& kv2 == kv
            &&& AtomicDelete::after(s, reply) == StepView::<AtomicDelete, bool>::Done(Ok(false))
        },
{
    let cs = AtomicDelete::asks(s)->checks;
    assert(cs[0] == CheckView::Present(KeyView::Plain(s.check_key@)));
    assert(kv.all_hold(cs) <==> kv.holds(cs[0]));
    lemma_deletes(kv.map, s.delete_keys@, kv.revision + 1, k);
}

/// Where the old key exists and the new one does not, the entries are written and the keys
/// deleted, in this order, and all other keys hold what they held. Else nothing changes, and it is
/// told whether the old key is missing or the new one is taken.
pub proof fn law_several_are_renamed(
    kv: Kv,
    s: AtomicRename,
    trace: Seq<(Reply, Kv)>,
    end: (Kv, Result<(), ErrorView>),
    i: int,
    k: KeyView,
)
    requires
        s.phase is Commit,
        runs::<AtomicRename>(s, kv, trace, end),
    ensures
        ({
            let old_there = kv.get(KeyView::Plain(s.old_forward_key@)) is Some;
            let new_there = kv.get(KeyView::Plain(s.new_forward_key@)) is Some;
            if old_there && !new_there {
                let written = KeyView::Plain(s.operations@[i].0@);
                &&& end.1 == Ok::<(), ErrorView>(())
                &&& is_one_of(s.delete_keys@, k) ==> end.0.get(k) is None
                &&& is_last(s.operations@, i) && !is_one_of(s.delete_keys@, written)
                    ==> end.0.get(written) == Some(Meaning::Text(s.operations@[i].1@))
                &&& !is_one_of(s.delete_keys@, k) && !is_entry_key(s.operations@, k)
                    ==> end.0.get(k) == kv.get(k)
            } else if !old_there {
                end == (kv, Err::<(), ErrorView>(ErrorView::NotFound(0)))
            } else {
                end == (kv, Err::<(), ErrorView>(target_exists(s.new_forward_key@)))
            }
        }),
{
    reveal_with_fuel(runs, 4);
    let cs = AtomicRename::asks(s)->checks;
    assert(cs[0] == CheckView::Present(KeyView::Plain(s.old_forward_key@)));
    assert(cs[1] == CheckView::Absent(KeyView::Plain(s.new_forward_key@)));
    assert(kv.all_hold(cs) <==> kv.holds(cs[0]) && kv.holds(cs[1]));
    let rev = kv.revision + 1;
    lemma_in_turn(kv.map, puts(s.operations@), deletes(s.delete_keys@), rev);
    let m1 = Kv::all_written(kv.map, puts(s.operations@), rev);
    let written = KeyView::Plain(s.operations@[i].0@);
    lemma_puts(kv.map, s.operations@, rev, k);
    lemma_deletes(m1, s.delete_keys@, rev, k);
    lemma_deletes(m1, s.delete_keys@, rev, written);
    assert(s.at(AtomicRenamePhase::Old).phase is Old);
}

} // verus!
