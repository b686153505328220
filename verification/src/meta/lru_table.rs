//! Tables of bounded size that drop what was used longest ago.
//!
//! The tables are those of the `lru` crate. Their contents are shown as a list of
//! items, the one that was used last first.

use crate::meta::cache::{CachedEntry, CachedValue};
use lru::LruCache;
use std::num::NonZeroUsize;
use vstd::prelude::*;

verus! {

/// The table type of the `lru` crate.
#[verifier::external_type_specification]
#[verifier::external_body]
#[verifier::reject_recursive_types(K)]
#[verifier::reject_recursive_types(V)]
#[verifier::reject_recursive_types(S)]
pub struct ExLruCache<K, V, S>(lru::LruCache<K, V, S>);

/// The hasher that the tables use.
#[verifier::external_type_specification]
#[verifier::external_body]
pub struct ExDefaultHasher(lru::DefaultHasher);

/// A key of a table: a number and a text.
pub type TableKey = (i64, Seq<char>);

/// An item of a table.
pub type TableItem = (TableKey, CachedEntry<CachedValue>);

/// The items of a table, the one that was used last first.
pub uninterp spec fn table_items(
    t: LruCache<(i64, String), CachedEntry<CachedValue>>,
) -> Seq<((i64, Seq<char>), CachedEntry<CachedValue>)>;

/// How many items a table was made to hold.
pub uninterp spec fn table_limit(t: LruCache<(i64, String), CachedEntry<CachedValue>>) -> nat;

/// The key that a pair stands for.
pub open spec fn key_view(k: (i64, String)) -> TableKey {
    (k.0, k.1@)
}

/// What the first item with a key holds.
pub open spec fn found(items: Seq<TableItem>, key: TableKey) -> Option<CachedEntry<CachedValue>>
    decreases items.len(),
{
    if items.len() == 0 {
        None
    } else if items[0].0 == key {
        Some(items[0].1)
    } else {
        found(items.drop_first(), key)
    }
}

/// Whether an item has another key.
pub open spec fn other_key(key: TableKey) -> spec_fn(TableItem) -> bool {
    |item: TableItem| item.0 != key
}

/// The items without those that have a key.
pub open spec fn without(items: Seq<TableItem>, key: TableKey) -> Seq<TableItem> {
    items.filter(other_key(key))
}

/// The items once a key was used.
pub open spec fn used(items: Seq<TableItem>, key: TableKey) -> Seq<TableItem> {
    match found(items, key) {
        Some(entry) => seq![(key, entry)] + without(items, key),
        None => items,
    }
}

/// The items once a key was set. In a full table the item that was used longest
/// ago makes room for a new key.
pub open spec fn stored(
    items: Seq<TableItem>,
    limit: nat,
    key: TableKey,
    entry: CachedEntry<CachedValue>,
) -> Seq<TableItem> {
    if found(items, key) is Some {
        seq![(key, entry)] + without(items, key)
    } else if items.len() == limit {
        seq![(key, entry)] + items.drop_last()
    } else {
        seq![(key, entry)] + items
    }
}

/// Calls `lru::LruCache::new`, which makes an empty table for the given number of
/// items. The table is laid out at once: a number whose table would not fit in the
/// address space is left out, and so is zero, which no table can be made for.
#[verifier::external_body]
pub(crate) fn new_table(cap: usize) -> (r: LruCache<(i64, String), CachedEntry<CachedValue>>)
    requires
        0 < cap,
        cap * 64 <= isize::MAX,
    ensures
        table_items(r) == Seq::<((i64, Seq<char>), CachedEntry<CachedValue>)>::empty(),
        table_limit(r) == cap,
{
    LruCache::new(NonZeroUsize::new(cap).unwrap())
}

/// Calls `lru::LruCache::get`, which gives what is stored under a key and makes its
/// item the one that was used last.
#[verifier::external_body]
pub(crate) fn table_get(
    t: &mut LruCache<(i64, String), CachedEntry<CachedValue>>,
    key: &(i64, String),
) -> (r: Option<CachedEntry<CachedValue>>)
    ensures
        r == found(table_items(*old(t)), key_view(*key)),
        table_items(*final(t)) == used(table_items(*old(t)), key_view(*key)),
        table_limit(*final(t)) == table_limit(*old(t)),
{
    t.get(key).copied()
}

/// Calls `lru::LruCache::put`, which stores an entry under a key, makes its item the
/// one that was used last, and, where the key is new and the table is full, drops
/// the item that was used longest ago. What it returns is not used.
#[verifier::external_body]
pub(crate) fn table_put(
    t: &mut LruCache<(i64, String), CachedEntry<CachedValue>>,
    key: (i64, String),
    entry: CachedEntry<CachedValue>,
)
    ensures
        table_items(*final(t)) == stored(
            table_items(*old(t)),
            table_limit(*old(t)),
            key_view(key),
            entry,
        ),
        table_limit(*final(t)) == table_limit(*old(t)),
{
    let _ = t.put(key, entry);
}

/// Calls `lru::LruCache::pop`, which removes the item of a key. What it returns is not used.
#[verifier::external_body]
pub(crate) fn table_pop(
    t: &mut LruCache<(i64, String), CachedEntry<CachedValue>>,
    key: &(i64, String),
)
    ensures
        table_items(*final(t)) == without(table_items(*old(t)), key_view(*key)),
        table_limit(*final(t)) == table_limit(*old(t)),
{
    let _ = t.pop(key);
}

/// Calls `lru::LruCache::clear`, which removes all items.
#[verifier::external_body]
pub(crate) fn table_clear(t: &mut LruCache<(i64, String), CachedEntry<CachedValue>>)
    ensures
        table_items(*final(t)) == Seq::<((i64, Seq<char>), CachedEntry<CachedValue>)>::empty(),
        table_limit(*final(t)) == table_limit(*old(t)),
{
    t.clear()
}

/// Calls `lru::LruCache::len`, which counts the items.
#[verifier::external_body]
pub(crate) fn table_len(t: &LruCache<(i64, String), CachedEntry<CachedValue>>) -> (r: usize)
    ensures
        r == table_items(*t).len(),
{
    t.len()
}

/// Calls `lru::LruCache::iter`, which visits the items from the one that was used
/// last on, and copies their keys.
#[verifier::external_body]
pub(crate) fn table_keys(t: &LruCache<(i64, String), CachedEntry<CachedValue>>) -> (r: Vec<
    (i64, String),
>)
    ensures
        r@.len() == table_items(*t).len(),
        forall|i: int| 0 <= i < r@.len() ==> key_view(#[trigger] r@[i]) == table_items(*t)[i].0,
{
    t.iter().map(|item| item.0.clone()).collect()
}

/// No key comes twice.
pub open spec fn distinct(items: Seq<TableItem>) -> bool {
    forall|i: int, j: int|
        0 <= i < j < items.len() ==> (#[trigger] items[i]).0 != (#[trigger] items[j]).0
}

/// What a key holds is found at some index, or the key is at none.
pub proof fn lemma_found(items: Seq<TableItem>, key: TableKey)
    ensures
        match found(items, key) {
            Some(entry) => exists|i: int| 0 <= i < items.len() && #[trigger] items[i] == (key, entry),
            None => forall|i: int| 0 <= i < items.len() ==> (#[trigger] items[i]).0 != key,
        },
    decreases items.len(),
{
    if items.len() > 0 && items[0].0 != key {
        let rest = items.drop_first();
        lemma_found(rest, key);
        match found(rest, key) {
            Some(entry) => {
                let i = choose|i: int| 0 <= i < rest.len() && #[trigger] rest[i] == (key, entry);
                assert(items[i + 1] == (key, entry));
            },
            None => {
                assert forall|i: int| 0 <= i < items.len() implies (#[trigger] items[i]).0
                    != key by {
                    if i > 0 {
                        assert(items[i] == rest[i - 1]);
                    }
                }
            },
        }
    } else if items.len() > 0 {
        assert(items[0] == (key, items[0].1));
    }
}

/// Among distinct keys, what an index holds is what its key is found as.
pub proof fn lemma_found_at(items: Seq<TableItem>, i: int)
    requires
        distinct(items),
        0 <= i < items.len(),
    ensures
        found(items, items[i].0) == Some(items[i].1),
{
    lemma_found(items, items[i].0);
    let entry = found(items, items[i].0)->0;
    let j = choose|j: int| 0 <= j < items.len() && #[trigger] items[j] == (items[i].0, entry);
    if j < i {
        assert(items[j].0 != items[i].0);
    }
    if i < j {
        assert(items[i].0 != items[j].0);
    }
}

/// A filter keeps keys distinct, leaves what it keeps to be found, and drops the rest.
pub proof fn lemma_filter(items: Seq<TableItem>, keep: spec_fn(TableItem) -> bool)
    ensures
        distinct(items) ==> distinct(items.filter(keep)),
        items.filter(keep).len() <= items.len(),
        forall|i: int|
            0 <= i < items.filter(keep).len() ==> keep(#[trigger] items.filter(keep)[i])
                && items.contains(items.filter(keep)[i]),
        forall|item: TableItem| #[trigger]
            items.contains(item) && keep(item) ==> items.filter(keep).contains(item),
    decreases items.len(),
{
    reveal(Seq::filter);
    if items.len() > 0 {
        let less = items.drop_last();
        lemma_filter(less, keep);
        let kept = less.filter(keep);
        let all = items.filter(keep);
        let last = items.last();
        assert forall|i: int| 0 <= i < all.len() implies keep(#[trigger] all[i])
            && items.contains(all[i]) by {
            if i < kept.len() {
                assert(all[i] == kept[i]);
                let j = choose|j: int| 0 <= j < less.len() && less[j] == kept[i];
                assert(items[j] == all[i]);
            } else {
                assert(items[items.len() - 1] == all[i]);
            }
        }
        assert forall|item: TableItem| #[trigger]
            items.contains(item) && keep(item) implies all.contains(item) by {
            let j = choose|j: int| 0 <= j < items.len() && items[j] == item;
            if j < less.len() {
                assert(less[j] == item);
                assert(less.contains(item));
                let i = choose|i: int| 0 <= i < kept.len() && kept[i] == item;
                assert(all[i] == item);
            } else {
                assert(all[all.len() - 1] == item);
            }
        }
        if distinct(items) {
            assert(distinct(less));
            assert forall|i: int, j: int| 0 <= i < j < all.len() implies (#[trigger] all[i]).0 != (
            #[trigger] all[j]).0 by {
                if j < kept.len() {
                    assert(kept[i].0 != kept[j].0);
                } else {
                    assert(all[i] == kept[i]);
                    let a = choose|a: int| 0 <= a < less.len() && less[a] == kept[i];
                    assert(items[a].0 != items[items.len() - 1].0);
                }
            }
        }
    }
}

/// What a filtered list finds.
pub proof fn lemma_filter_found(
    items: Seq<TableItem>,
    keep: spec_fn(TableItem) -> bool,
    key: TableKey,
)
    requires
        distinct(items),
    ensures
        found(items.filter(keep), key) == (match found(items, key) {
            Some(entry) => if keep((key, entry)) {
                Some(entry)
            } else {
                None
            },
            None => None,
        }),
{
    lemma_filter(items, keep);
    let kept = items.filter(keep);
    lemma_found(items, key);
    lemma_found(kept, key);
    match found(items, key) {
        Some(entry) => {
            let i = choose|i: int| 0 <= i < items.len() && #[trigger] items[i] == (key, entry);
            assert(items.contains((key, entry)));
            if keep((key, entry)) {
                assert(kept.contains((key, entry)));
                let j = choose|j: int| 0 <= j < kept.len() && kept[j] == (key, entry);
                lemma_found_at(kept, j);
            } else if let Some(other) = found(kept, key) {
                let j = choose|j: int| 0 <= j < kept.len() && #[trigger] kept[j] == (key, other);
                assert(items.contains(kept[j]));
                let k = choose|k: int| 0 <= k < items.len() && items[k] == kept[j];
                lemma_found_at(items, k);
                assert(other == entry);
            }
        },
        None => {
            if let Some(other) = found(kept, key) {
                let j = choose|j: int| 0 <= j < kept.len() && #[trigger] kept[j] == (key, other);
                assert(items.contains(kept[j]));
            }
        },
    }
}

/// An item before a list that does not hold its key.
proof fn lemma_in_front(items: Seq<TableItem>, item: TableItem)
    requires
        distinct(items),
        found(items, item.0) is None,
    ensures
        distinct(seq![item] + items),
        found(seq![item] + items, item.0) == Some(item.1),
        forall|key: TableKey|
            key != item.0 ==> #[trigger] found(seq![item] + items, key) == found(items, key),
{
    lemma_found(items, item.0);
    let all = seq![item] + items;
    assert(all.drop_first() =~= items);
    assert forall|i: int, j: int| 0 <= i < j < all.len() implies (#[trigger] all[i]).0 != (
    #[trigger] all[j]).0 by {
        assert(all[j] == items[j - 1]);
        if i > 0 {
            assert(all[i] == items[i - 1]);
        }
    }
}

/// The use of a key keeps what every key holds.
pub proof fn lemma_used(items: Seq<TableItem>, key: TableKey)
    requires
        distinct(items),
    ensures
        distinct(used(items, key)),
        used(items, key).len() <= items.len(),
        forall|k: TableKey| #[trigger] found(used(items, key), k) == found(items, k),
{
    let keep = other_key(key);
    lemma_filter(items, keep);
    if let Some(entry) = found(items, key) {
        lemma_filter_found(items, keep, key);
        lemma_in_front(without(items, key), (key, entry));
        lemma_found(items, key);
        let i = choose|i: int| 0 <= i < items.len() && #[trigger] items[i] == (key, entry);
        lemma_shorter(items, keep, i);
        assert forall|k: TableKey| #[trigger] found(used(items, key), k) == found(items, k) by {
            lemma_filter_found(items, keep, k);
        }
    }
}

/// A filter that drops an item makes a list shorter.
proof fn lemma_shorter(items: Seq<TableItem>, keep: spec_fn(TableItem) -> bool, i: int)
    requires
        0 <= i < items.len(),
        !keep(items[i]),
    ensures
        items.filter(keep).len() < items.len(),
    decreases items.len(),
{
    reveal(Seq::filter);
    let less = items.drop_last();
    lemma_filter(less, keep);
    if i < less.len() {
        assert(less[i] == items[i]);
        lemma_shorter(less, keep, i);
    }
}

/// Setting a key gives it its entry, keeps the list within the limit, and leaves every
/// other key what it held, or drops it.
pub proof fn lemma_set(
    items: Seq<TableItem>,
    limit: nat,
    key: TableKey,
    entry: CachedEntry<CachedValue>,
)
    requires
        distinct(items),
        items.len() <= limit,
        0 < limit,
    ensures
        distinct(stored(items, limit, key, entry)),
        stored(items, limit, key, entry).len() <= limit,
        found(stored(items, limit, key, entry), key) == Some(entry),
        forall|k: TableKey|
            k != key ==> (#[trigger] found(stored(items, limit, key, entry), k) == found(items, k)
                || found(stored(items, limit, key, entry), k) is None),
        items.len() < limit || found(items, key) is Some ==> forall|k: TableKey|
            k != key ==> #[trigger] found(stored(items, limit, key, entry), k) == found(items, k),
{
    let keep = other_key(key);
    lemma_filter(items, keep);
    lemma_found(items, key);
    if found(items, key) is Some {
        lemma_filter_found(items, keep, key);
        lemma_in_front(without(items, key), (key, entry));
        let old = found(items, key)->0;
        let i = choose|i: int| 0 <= i < items.len() && #[trigger] items[i] == (key, old);
        lemma_shorter(items, keep, i);
        assert forall|k: TableKey| k != key implies #[trigger] found(
            stored(items, limit, key, entry),
            k,
        ) == found(items, k) by {
            lemma_filter_found(items, keep, k);
        }
    } else if items.len() == limit {
        let rest = items.drop_last();
        lemma_found(rest, key);
        if let Some(other) = found(rest, key) {
            let i = choose|i: int| 0 <= i < rest.len() && #[trigger] rest[i] == (key, other);
            assert(items[i].0 == key);
        }
        assert(distinct(rest));
        lemma_in_front(rest, (key, entry));
        assert forall|k: TableKey| k != key implies (#[trigger] found(
            stored(items, limit, key, entry),
            k,
        ) == found(items, k) || found(stored(items, limit, key, entry), k) is None) by {
            lemma_found(rest, k);
            if let Some(other) = found(rest, k) {
                let i = choose|i: int| 0 <= i < rest.len() && #[trigger] rest[i] == (k, other);
                lemma_found_at(items, i);
            }
        }
    } else {
        lemma_in_front(items, (key, entry));
    }
}

} // verus!
