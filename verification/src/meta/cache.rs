//! Cached attributes, entries and paths, each for a limited time.
//!
//! Times are milliseconds on a clock of the caller.

use crate::meta::lru_table::{
    distinct, found, key_view, lemma_filter, lemma_filter_found, lemma_found, lemma_set, lemma_used,
    new_table, other_key, stored, table_clear, table_get, table_items, table_keys, table_len,
    table_limit, table_pop, table_put, used, without, TableItem, TableKey,
};
use crate::meta::store::FileAttr;
use crate::meta::types::Inode;
use crate::text::starts_with;
use lru::LruCache;
use vstd::prelude::*;
use vstd::string::*;

verus! {

/// How much is cached, and for how long.
#[derive(Debug, Clone, Copy)]
pub struct CacheConfig {
    pub attr_capacity: usize,
    pub dentry_capacity: usize,
    pub path_capacity: usize,
    pub negative_capacity: usize,
    pub attr_ttl: u64,
    pub dentry_ttl: u64,
    pub path_ttl: u64,
    /// That there is nothing is kept for a shorter time, so that new files show soon.
    pub negative_ttl: u64,
}

/// The usual caches: a minute for attributes and names, half of it for paths, and five
/// seconds for what does not exist.
pub open spec fn usual_config() -> CacheConfig {
    CacheConfig {
        attr_capacity: 10000,
        dentry_capacity: 10000,
        path_capacity: 5000,
        negative_capacity: 1000,
        attr_ttl: 60000,
        dentry_ttl: 60000,
        path_ttl: 30000,
        negative_ttl: 5000,
    }
}

impl Default for CacheConfig {
    fn default() -> (r: Self)
        ensures
            r == usual_config(),
    {
        CacheConfig {
            attr_capacity: 10000,
            dentry_capacity: 10000,
            path_capacity: 5000,
            negative_capacity: 1000,
            attr_ttl: 60000,
            dentry_ttl: 60000,
            path_ttl: 30000,
            negative_ttl: 5000,
        }
    }
}

/// Whether a table can be made for that many items.
pub open spec fn possible_capacity(n: usize) -> bool {
    0 < n && n * 64 <= isize::MAX
}

impl CacheConfig {
    /// Whether tables can be made for the capacities.
    pub open spec fn possible(self) -> bool {
        possible_capacity(self.attr_capacity) && possible_capacity(self.dentry_capacity)
            && possible_capacity(self.path_capacity) && possible_capacity(self.negative_capacity)
    }

    /// Whether every time that something cached at `now` expires at can be told.
    pub open spec fn in_time(self, now: u64) -> bool {
        now + self.attr_ttl <= u64::MAX && now + self.dentry_ttl <= u64::MAX && now + self.path_ttl
            <= u64::MAX && now + self.negative_ttl <= u64::MAX
    }

    /// Whether every time that something cached at `now` expires at can be told.
    pub fn can_tell(&self, now: u64) -> (r: bool)
        ensures
            r == self.in_time(now),
    {
        let left: u64 = u64::MAX - now;
        self.attr_ttl <= left && self.dentry_ttl <= left && self.path_ttl <= left
            && self.negative_ttl <= left
    }
}

/// A value with the time until which it counts, and its version.
#[derive(Debug, Clone, Copy)]
pub struct CachedEntry<T> {
    pub value: T,
    pub expire_at: u64,
    pub version: u64,
}

impl<T> CachedEntry<T> {
    /// A value that counts for a time from now on.
    pub fn new(value: T, now: u64, ttl: u64, version: u64) -> (r: Self)
        requires
            now + ttl <= u64::MAX,
        ensures
            r == (CachedEntry { value, expire_at: (now + ttl) as u64, version }),
    {
        CachedEntry { value, expire_at: now + ttl, version }
    }

    /// Whether the time is over.
    pub fn is_expired(&self, now: u64) -> (r: bool)
        ensures
            r == (now > self.expire_at),
    {
        now > self.expire_at
    }

    /// Whether the value counts: in time, and of the version that is expected.
    pub open spec fn valid(self, now: u64, expected_version: Option<u64>) -> bool {
        now <= self.expire_at && match expected_version {
            Some(expected) => self.version == expected,
            None => true,
        }
    }

    /// Whether the value counts.
    pub fn is_valid(&self, now: u64, expected_version: Option<u64>) -> (r: bool)
        ensures
            r == self.valid(now, expected_version),
    {
        if self.is_expired(now) {
            return false;
        }
        if let Some(expected) = expected_version {
            if self.version != expected {
                return false;
            }
        }
        true
    }
}

/// What is cached.
#[derive(Debug, Clone, Copy)]
pub enum CachedValue {
    /// The attributes of an inode.
    Attr(FileAttr),
    /// What a name or a path stands for.
    Child(Inode),
    /// That there is nothing.
    Absent,
}

/// The caches of a client.
pub struct MetaCache {
    pub config: CacheConfig,
    /// Attributes by inode.
    pub attr_cache: LruCache<(i64, String), CachedEntry<CachedValue>>,
    /// Children by directory and name.
    pub dentry_cache: LruCache<(i64, String), CachedEntry<CachedValue>>,
    /// Inodes by path.
    pub path_cache: LruCache<(i64, String), CachedEntry<CachedValue>>,
    /// What is known not to exist.
    pub negative_cache: LruCache<(i64, String), CachedEntry<CachedValue>>,
}

/// What the caches hold.
pub struct CacheView {
    pub config: CacheConfig,
    pub attrs: Seq<TableItem>,
    pub dentries: Seq<TableItem>,
    pub paths: Seq<TableItem>,
    pub negatives: Seq<TableItem>,
}

/// The key of an inode.
pub open spec fn attr_key(ino: Inode) -> TableKey {
    (ino.0, Seq::empty())
}

/// The key of a name in a directory.
pub open spec fn dentry_key(parent: Inode, name: Seq<char>) -> TableKey {
    (parent.0, name)
}

/// The key of a text.
pub open spec fn text_key(text: Seq<char>) -> TableKey {
    (0i64, text)
}

/// What a key holds that counts.
pub open spec fn live(
    items: Seq<TableItem>,
    key: TableKey,
    now: u64,
    expected_version: Option<u64>,
) -> Option<CachedValue> {
    match found(items, key) {
        Some(entry) => if entry.valid(now, expected_version) {
            Some(entry.value)
        } else {
            None
        },
        None => None,
    }
}

/// The items once a key was read: what counts was used last, what does not is gone.
pub open spec fn read(
    items: Seq<TableItem>,
    key: TableKey,
    now: u64,
    expected_version: Option<u64>,
) -> Seq<TableItem> {
    if live(items, key, now, expected_version) is Some {
        used(items, key)
    } else {
        without(items, key)
    }
}

/// Whether an item belongs to another directory.
pub open spec fn elsewhere(parent: Inode) -> spec_fn(TableItem) -> bool {
    |item: TableItem| item.0.0 != parent.0
}

/// Whether the text of an item does not start with a prefix.
pub open spec fn not_below(prefix: Seq<char>) -> spec_fn(TableItem) -> bool {
    |item: TableItem| !prefix.is_prefix_of(item.0.1)
}

/// The entry for a value from now on.
pub open spec fn timed(value: CachedValue, now: u64, ttl: u64, version: u64) -> CachedEntry<
    CachedValue,
> {
    CachedEntry { value, expire_at: (now + ttl) as u64, version }
}

impl CacheView {
    /// No key comes twice, no table is over its capacity, and each holds its kind of value.
    pub open spec fn sound(self) -> bool {
        &&& self.config.possible()
        &&& distinct(self.attrs) && self.attrs.len() <= self.config.attr_capacity
        &&& distinct(self.dentries) && self.dentries.len() <= self.config.dentry_capacity
        &&& distinct(self.paths) && self.paths.len() <= self.config.path_capacity
        &&& distinct(self.negatives) && self.negatives.len() <= self.config.negative_capacity
    }

    /// The cached attributes of an inode.
    pub open spec fn attr(self, now: u64, ino: Inode, version: Option<u64>) -> Option<FileAttr> {
        match live(self.attrs, attr_key(ino), now, version) {
            Some(CachedValue::Attr(attr)) => Some(attr),
            _ => None,
        }
    }

    /// The cached child of a name.
    pub open spec fn dentry(self, now: u64, parent: Inode, name: Seq<char>) -> Option<Inode> {
        match live(self.dentries, dentry_key(parent, name), now, None) {
            Some(CachedValue::Child(ino)) => Some(ino),
            _ => None,
        }
    }

    /// The cached inode of a path.
    pub open spec fn path(self, now: u64, path: Seq<char>) -> Option<Inode> {
        match live(self.paths, text_key(path), now, None) {
            Some(CachedValue::Child(ino)) => Some(ino),
            _ => None,
        }
    }

    /// Whether a key is known not to exist; at the very time at which that
    /// expires it is not known any more.
    pub open spec fn negative(self, now: u64, key: Seq<char>) -> bool {
        match found(self.negatives, text_key(key)) {
            Some(entry) => now < entry.expire_at,
            None => false,
        }
    }

    /// After the attributes of an inode were read.
    pub open spec fn attr_read(self, now: u64, ino: Inode, version: Option<u64>) -> CacheView {
        CacheView { attrs: read(self.attrs, attr_key(ino), now, version), ..self }
    }

    /// After a name was read.
    pub open spec fn dentry_read(self, now: u64, parent: Inode, name: Seq<char>) -> CacheView {
        CacheView { dentries: read(self.dentries, dentry_key(parent, name), now, None), ..self }
    }

    /// After a path was read.
    pub open spec fn path_read(self, now: u64, path: Seq<char>) -> CacheView {
        CacheView { paths: read(self.paths, text_key(path), now, None), ..self }
    }

    /// After the absence of a key was read.
    pub open spec fn negative_read(self, now: u64, key: Seq<char>) -> CacheView {
        CacheView {
            negatives: if self.negative(now, key) {
                used(self.negatives, text_key(key))
            } else {
                without(self.negatives, text_key(key))
            },
            ..self
        }
    }

    /// With the attributes of an inode.
    pub open spec fn put_attr(self, now: u64, ino: Inode, attr: FileAttr) -> CacheView {
        CacheView {
            attrs: stored(
                self.attrs,
                self.config.attr_capacity as nat,
                attr_key(ino),
                timed(CachedValue::Attr(attr), now, self.config.attr_ttl, attr.version),
            ),
            ..self
        }
    }

    /// With the child of a name.
    pub open spec fn put_dentry(
        self,
        now: u64,
        parent: Inode,
        name: Seq<char>,
        child: Inode,
    ) -> CacheView {
        CacheView {
            dentries: stored(
                self.dentries,
                self.config.dentry_capacity as nat,
                dentry_key(parent, name),
                timed(CachedValue::Child(child), now, self.config.dentry_ttl, 0),
            ),
            ..self
        }
    }

    /// With the inode of a path.
    pub open spec fn put_path(self, now: u64, path: Seq<char>, ino: Inode) -> CacheView {
        CacheView {
            paths: stored(
                self.paths,
                self.config.path_capacity as nat,
                text_key(path),
                timed(CachedValue::Child(ino), now, self.config.path_ttl, 0),
            ),
            ..self
        }
    }

    /// With a key that is known not to exist.
    pub open spec fn put_negative(self, now: u64, key: Seq<char>) -> CacheView {
        CacheView {
            negatives: stored(
                self.negatives,
                self.config.negative_capacity as nat,
                text_key(key),
                timed(CachedValue::Absent, now, self.config.negative_ttl, 0),
            ),
            ..self
        }
    }

    /// Without the attributes of an inode.
    pub open spec fn without_attr(self, ino: Inode) -> CacheView {
        CacheView { attrs: without(self.attrs, attr_key(ino)), ..self }
    }

    /// Without a name.
    pub open spec fn without_dentry(self, parent: Inode, name: Seq<char>) -> CacheView {
        CacheView { dentries: without(self.dentries, dentry_key(parent, name)), ..self }
    }

    /// Without the names in a directory.
    pub open spec fn without_dir(self, parent: Inode) -> CacheView {
        CacheView { dentries: self.dentries.filter(elsewhere(parent)), ..self }
    }

    /// Without a path.
    pub open spec fn without_path(self, path: Seq<char>) -> CacheView {
        CacheView { paths: without(self.paths, text_key(path)), ..self }
    }

    /// Without the paths that start with a prefix.
    pub open spec fn without_path_prefix(self, prefix: Seq<char>) -> CacheView {
        CacheView { paths: self.paths.filter(not_below(prefix)), ..self }
    }

    /// Without the knowledge that a key does not exist.
    pub open spec fn without_negative(self, key: Seq<char>) -> CacheView {
        CacheView { negatives: without(self.negatives, text_key(key)), ..self }
    }

    /// Without the attributes of several inodes.
    pub open spec fn without_attrs(self, inos: Seq<Inode>) -> CacheView
        decreases inos.len(),
    {
        if inos.len() == 0 {
            self
        } else {
            self.without_attrs(inos.drop_last()).without_attr(inos.last())
        }
    }

    /// With nothing in it.
    pub open spec fn cleared(self) -> CacheView {
        CacheView {
            attrs: Seq::empty(),
            dentries: Seq::empty(),
            paths: Seq::empty(),
            negatives: Seq::empty(),
            ..self
        }
    }
}

impl View for MetaCache {
    type V = CacheView;

    open spec fn view(&self) -> CacheView {
        CacheView {
            config: self.config,
            attrs: table_items(self.attr_cache),
            dentries: table_items(self.dentry_cache),
            paths: table_items(self.path_cache),
            negatives: table_items(self.negative_cache),
        }
    }
}

/// What is in use of the caches, and how much they can hold.
#[derive(Debug, Clone, Copy, PartialEq, Eq, Structural)]
pub struct CacheStats {
    pub attr_size: usize,
    pub attr_capacity: usize,
    pub dentry_size: usize,
    pub dentry_capacity: usize,
    pub path_size: usize,
    pub path_capacity: usize,
    pub negative_size: usize,
    pub negative_capacity: usize,
}

/// All items satisfy a filter that keeps each of them.
proof fn lemma_filter_all(items: Seq<TableItem>, keep: spec_fn(TableItem) -> bool)
    requires
        forall|i: int| 0 <= i < items.len() ==> keep(#[trigger] items[i]),
    ensures
        items.filter(keep) == items,
    decreases items.len(),
{
    reveal(Seq::filter);
    if items.len() > 0 {
        lemma_filter_all(items.drop_last(), keep);
        assert(keep(items[items.len() - 1]));
        assert(items.drop_last().push(items.last()) =~= items);
    } else {
        assert(items.filter(keep) =~= items);
    }
}

/// To remove a key that was just used is to remove it.
proof fn lemma_used_then_without(items: Seq<TableItem>, key: TableKey)
    ensures
        without(used(items, key), key) == without(items, key),
{
    if let Some(entry) = found(items, key) {
        let front = seq![(key, entry)];
        let rest = without(items, key);
        lemma_filter(items, other_key(key));
        Seq::filter_distributes_over_add(front, rest, other_key(key));
        lemma_filter_all(rest, other_key(key));
        assert(front.filter(other_key(key)) =~= Seq::empty()) by {
            reveal(Seq::filter);
            assert(front.drop_last() =~= Seq::empty());
            assert(front.drop_last().filter(other_key(key)) =~= Seq::empty());
        }
        assert(without(used(items, key), key) =~= rest);
    }
}

/// Where a key is not found there is nothing to remove.
proof fn lemma_nothing_to_remove(items: Seq<TableItem>, key: TableKey)
    requires
        found(items, key) is None,
    ensures
        without(items, key) == items,
{
    lemma_found(items, key);
    lemma_filter_all(items, other_key(key));
}

/// Reads a key: what counts is used, what does not is removed.
fn table_read(
    table: &mut LruCache<(i64, String), CachedEntry<CachedValue>>,
    key: &(i64, String),
    now: u64,
    expected_version: Option<u64>,
) -> (r: Option<CachedValue>)
    ensures
        r == live(table_items(*old(table)), key_view(*key), now, expected_version),
        table_items(*final(table)) == read(
            table_items(*old(table)),
            key_view(*key),
            now,
            expected_version,
        ),
        table_limit(*final(table)) == table_limit(*old(table)),
{
    match table_get(table, key) {
        Some(entry) => {
            if entry.is_valid(now, expected_version) {
                Some(entry.value)
            } else {
                proof {
                    lemma_used_then_without(table_items(*old(table)), key_view(*key));
                }
                table_pop(table, key);
                None
            }
        },
        None => {
            proof {
                lemma_nothing_to_remove(table_items(*old(table)), key_view(*key));
            }
            None
        },
    }
}

/// Whether an item's key is none of the first keys of a list that are to go.
spec fn spared(keys: Seq<(i64, String)>, n: int, goes: spec_fn(TableKey) -> bool) -> spec_fn(
    TableItem,
) -> bool {
    |item: TableItem|
        !exists|j: int| 0 <= j < n && goes(item.0) && key_view(#[trigger] keys[j]) == item.0
}

/// To filter twice is to filter by both.
proof fn lemma_filter_twice(
    items: Seq<TableItem>,
    a: spec_fn(TableItem) -> bool,
    b: spec_fn(TableItem) -> bool,
    both: spec_fn(TableItem) -> bool,
)
    requires
        forall|item: TableItem| #[trigger] both(item) <==> a(item) && b(item),
    ensures
        items.filter(a).filter(b) == items.filter(both),
    decreases items.len(),
{
    reveal(Seq::filter);
    if items.len() > 0 {
        let less = items.drop_last();
        lemma_filter_twice(less, a, b, both);
        if a(items.last()) {
            let kept = less.filter(a);
            assert(items.filter(a) == kept.push(items.last()));
            assert(kept.push(items.last()).drop_last() =~= kept);
        }
        assert(both(items.last()) <==> a(items.last()) && b(items.last()));
    }
}

/// Filters that keep the same items of a list are the same on it.
proof fn lemma_filter_same(
    items: Seq<TableItem>,
    a: spec_fn(TableItem) -> bool,
    b: spec_fn(TableItem) -> bool,
)
    requires
        forall|i: int| 0 <= i < items.len() ==> a(#[trigger] items[i]) == b(items[i]),
    ensures
        items.filter(a) == items.filter(b),
    decreases items.len(),
{
    reveal(Seq::filter);
    if items.len() > 0 {
        let less = items.drop_last();
        assert forall|i: int| 0 <= i < less.len() implies a(#[trigger] less[i]) == b(less[i]) by {
            assert(items[i] == less[i]);
        }
        lemma_filter_same(less, a, b);
        assert(a(items[items.len() - 1]) == b(items[items.len() - 1]));
    }
}

/// One key more is removed.
proof fn lemma_one_more(
    items: Seq<TableItem>,
    keys: Seq<(i64, String)>,
    n: int,
    goes: spec_fn(TableKey) -> bool,
)
    requires
        0 <= n < keys.len(),
    ensures
        goes(key_view(keys[n])) ==> items.filter(spared(keys, n + 1, goes)) == without(
            items.filter(spared(keys, n, goes)),
            key_view(keys[n]),
        ),
        !goes(key_view(keys[n])) ==> items.filter(spared(keys, n + 1, goes)) == items.filter(
            spared(keys, n, goes),
        ),
{
    let before = spared(keys, n, goes);
    let after = spared(keys, n + 1, goes);
    let key = key_view(keys[n]);
    assert forall|item: TableItem| goes(key) implies (#[trigger] after(item) <==> before(item)
        && other_key(key)(item)) by {
        if item.0 == key {
            assert(key_view(keys[n]) == item.0);
        }
        if !before(item) {
            let j = choose|j: int|
                0 <= j < n && goes(item.0) && key_view(#[trigger] keys[j]) == item.0;
            assert(0 <= j < n + 1 && key_view(keys[j]) == item.0);
        }
        if !after(item) {
            let j = choose|j: int|
                0 <= j < n + 1 && goes(item.0) && key_view(#[trigger] keys[j]) == item.0;
            assert(j == n || (0 <= j < n && key_view(keys[j]) == item.0));
        }
    }
    if goes(key) {
        lemma_filter_twice(items, before, other_key(key), after);
    } else {
        assert forall|i: int| 0 <= i < items.len() implies after(#[trigger] items[i]) == before(
            items[i],
        ) by {
            let item = items[i];
            if !before(item) {
                let j = choose|j: int|
                    0 <= j < n && goes(item.0) && key_view(#[trigger] keys[j]) == item.0;
                assert(0 <= j < n + 1 && key_view(keys[j]) == item.0);
            }
            if !after(item) {
                let j = choose|j: int|
                    0 <= j < n + 1 && goes(item.0) && key_view(#[trigger] keys[j]) == item.0;
                assert(j < n);
            }
        }
        lemma_filter_same(items, after, before);
    }
}

/// Nothing is removed at first, and in the end all that is to go.
proof fn lemma_first_and_last(
    items: Seq<TableItem>,
    keys: Seq<(i64, String)>,
    goes: spec_fn(TableKey) -> bool,
    keep: spec_fn(TableItem) -> bool,
)
    requires
        keys.len() == items.len(),
        forall|i: int| 0 <= i < keys.len() ==> key_view(#[trigger] keys[i]) == items[i].0,
        forall|item: TableItem| #[trigger] keep(item) <==> !goes(item.0),
    ensures
        items.filter(spared(keys, 0, goes)) == items,
        items.filter(spared(keys, keys.len() as int, goes)) == items.filter(keep),
{
    lemma_filter_all(items, spared(keys, 0, goes));
    let after = spared(keys, keys.len() as int, goes);
    assert forall|i: int| 0 <= i < items.len() implies after(#[trigger] items[i]) == keep(
        items[i],
    ) by {
        assert(key_view(keys[i]) == items[i].0);
    }
    lemma_filter_same(items, after, keep);
}

/// Filtering keeps what holds of a table.
proof fn lemma_filter_sound(items: Seq<TableItem>, keep: spec_fn(TableItem) -> bool, limit: nat)
    requires
        distinct(items),
        items.len() <= limit,
    ensures
        distinct(items.filter(keep)),
        items.filter(keep).len() <= limit,
{
    lemma_filter(items, keep);
}

/// Reading keeps what holds of a table.
proof fn lemma_read_sound(
    items: Seq<TableItem>,
    key: TableKey,
    now: u64,
    version: Option<u64>,
    limit: nat,
)
    requires
        distinct(items),
        items.len() <= limit,
    ensures
        distinct(read(items, key, now, version)),
        read(items, key, now, version).len() <= limit,
{
    lemma_filter(items, other_key(key));
    lemma_used(items, key);
}

impl MetaCache {
    /// What holds of the caches between calls.
    pub open spec fn wf(self) -> bool {
        &&& self@.sound()
        &&& table_limit(self.attr_cache) == self.config.attr_capacity
        &&& table_limit(self.dentry_cache) == self.config.dentry_capacity
        &&& table_limit(self.path_cache) == self.config.path_capacity
        &&& table_limit(self.negative_cache) == self.config.negative_capacity
    }

    /// Empty caches.
    pub fn new(config: CacheConfig) -> (r: Self)
        requires
            config.possible(),
        ensures
            r.wf(),
            r@ == (CacheView {
                config,
                attrs: Seq::empty(),
                dentries: Seq::empty(),
                paths: Seq::empty(),
                negatives: Seq::empty(),
            }),
    {
        MetaCache {
            attr_cache: new_table(config.attr_capacity),
            dentry_cache: new_table(config.dentry_capacity),
            path_cache: new_table(config.path_capacity),
            negative_cache: new_table(config.negative_capacity),
            config,
        }
    }

    /// The cached attributes of an inode, of whatever version or of the one that is expected.
    fn read_attr(&mut self, now: u64, ino: Inode, version: Option<u64>) -> (r: Option<FileAttr>)
        requires
            old(self).wf(),
        ensures
            final(self).wf(),
            r == old(self)@.attr(now, ino, version),
            final(self)@ == old(self)@.attr_read(now, ino, version),
    {
        let key = (ino.0, String::new());
        assert(key_view(key).1 =~= Seq::empty());
        proof {
            lemma_read_sound(
                self@.attrs,
                attr_key(ino),
                now,
                version,
                self.config.attr_capacity as nat,
            );
        }
        match table_read(&mut self.attr_cache, &key, now, version) {
            Some(CachedValue::Attr(attr)) => Some(attr),
            _ => None,
        }
    }

    /// The cached attributes of an inode.
    pub fn get_attr(&mut self, now: u64, ino: Inode) -> (r: Option<FileAttr>)
        requires
            old(self).wf(),
        ensures
            final(self).wf(),
            r == old(self)@.attr(now, ino, None),
            final(self)@ == old(self)@.attr_read(now, ino, None),
    {
        self.read_attr(now, ino, None)
    }

    /// The cached attributes of an inode, if they are of a version. Those of another version are
    /// removed.
    pub fn get_attr_versioned(&mut self, now: u64, ino: Inode, expected_version: u64) -> (r: Option<
        FileAttr,
    >)
        requires
            old(self).wf(),
        ensures
            final(self).wf(),
            r == old(self)@.attr(now, ino, Some(expected_version)),
            final(self)@ == old(self)@.attr_read(now, ino, Some(expected_version)),
    {
        self.read_attr(now, ino, Some(expected_version))
    }

    /// Caches the attributes of an inode.
    pub fn put_attr(&mut self, now: u64, ino: Inode, attr: FileAttr)
        requires
            old(self).wf(),
            now + old(self).config.attr_ttl <= u64::MAX,
        ensures
            final(self).wf(),
            final(self)@ == old(self)@.put_attr(now, ino, attr),
    {
        let key = (ino.0, String::new());
        assert(key_view(key).1 =~= Seq::empty());
        let entry = CachedEntry::new(
            CachedValue::Attr(attr),
            now,
            self.config.attr_ttl,
            attr.version,
        );
        proof {
            lemma_set(self@.attrs, self.config.attr_capacity as nat, attr_key(ino), entry);
        }
        table_put(&mut self.attr_cache, key, entry);
    }

    /// Drops the attributes of an inode.
    pub fn invalidate_attr(&mut self, ino: Inode)
        requires
            old(self).wf(),
        ensures
            final(self).wf(),
            final(self)@ == old(self)@.without_attr(ino),
    {
        let key = (ino.0, String::new());
        assert(key_view(key).1 =~= Seq::empty());
        proof {
            lemma_filter(self@.attrs, other_key(attr_key(ino)));
        }
        table_pop(&mut self.attr_cache, &key);
    }

    /// Drops the attributes of several inodes.
    pub fn invalidate_attrs(&mut self, inos: &Vec<Inode>)
        requires
            old(self).wf(),
        ensures
            final(self).wf(),
            final(self)@ == old(self)@.without_attrs(inos@),
    {
        let mut i: usize = 0;
        while i < inos.len()
            invariant
                i <= inos.len(),
                self.wf(),
                self@ == old(self)@.without_attrs(inos@.take(i as int)),
            decreases inos.len() - i,
        {
            self.invalidate_attr(inos[i]);
            i = i + 1;
            assert(inos@.take(i as int).drop_last() =~= inos@.take(i - 1));
        }
        assert(inos@.take(i as int) =~= inos@);
    }

    /// The cached child of a name.
    pub fn get_dentry(&mut self, now: u64, parent: Inode, name: &str) -> (r: Option<Inode>)
        requires
            old(self).wf(),
        ensures
            final(self).wf(),
            r == old(self)@.dentry(now, parent, name@),
            final(self)@ == old(self)@.dentry_read(now, parent, name@),
    {
        let key = (parent.0, name.to_owned());
        proof {
            lemma_read_sound(
                self@.dentries,
                dentry_key(parent, name@),
                now,
                None,
                self.config.dentry_capacity as nat,
            );
        }
        match table_read(&mut self.dentry_cache, &key, now, None) {
            Some(CachedValue::Child(ino)) => Some(ino),
            _ => None,
        }
    }

    /// Caches the child of a name.
    pub fn put_dentry(&mut self, now: u64, parent: Inode, name: &str, child: Inode)
        requires
            old(self).wf(),
            now + old(self).config.dentry_ttl <= u64::MAX,
        ensures
            final(self).wf(),
            final(self)@ == old(self)@.put_dentry(now, parent, name@, child),
    {
        let key = (parent.0, name.to_owned());
        let entry = CachedEntry::new(CachedValue::Child(child), now, self.config.dentry_ttl, 0);
        proof {
            lemma_set(
                self@.dentries,
                self.config.dentry_capacity as nat,
                dentry_key(parent, name@),
                entry,
            );
        }
        table_put(&mut self.dentry_cache, key, entry);
    }

    /// Drops the names in a directory.
    pub fn invalidate_dir(&mut self, parent: Inode)
        requires
            old(self).wf(),
        ensures
            final(self).wf(),
            final(self)@ == old(self)@.without_dir(parent),
    {
        let keys = table_keys(&self.dentry_cache);
        let ghost items = self@.dentries;
        let ghost goes = |key: TableKey| key.0 == parent.0;
        proof {
            lemma_first_and_last(items, keys@, goes, elsewhere(parent));
            lemma_filter_sound(items, elsewhere(parent), self.config.dentry_capacity as nat);
        }
        let mut i: usize = 0;
        while i < keys.len()
            invariant
                i <= keys.len(),
                goes == (|key: TableKey| key.0 == parent.0),
                self@ == (CacheView {
                    dentries: items.filter(spared(keys@, i as int, goes)),
                    ..old(self)@
                }),
                table_limit(self.attr_cache) == table_limit(old(self).attr_cache),
                table_limit(self.dentry_cache) == table_limit(old(self).dentry_cache),
                table_limit(self.path_cache) == table_limit(old(self).path_cache),
                table_limit(self.negative_cache) == table_limit(old(self).negative_cache),
            decreases keys.len() - i,
        {
            proof {
                lemma_one_more(items, keys@, i as int, goes);
            }
            if keys[i].0 == parent.0 {
                table_pop(&mut self.dentry_cache, &keys[i]);
            }
            i = i + 1;
        }
    }

    /// Drops a name.
    pub fn invalidate_dentry(&mut self, parent: Inode, name: &str)
        requires
            old(self).wf(),
        ensures
            final(self).wf(),
            final(self)@ == old(self)@.without_dentry(parent, name@),
    {
        let key = (parent.0, name.to_owned());
        proof {
            lemma_filter(self@.dentries, other_key(dentry_key(parent, name@)));
        }
        table_pop(&mut self.dentry_cache, &key);
    }

    /// The cached inode of a path.
    pub fn get_path(&mut self, now: u64, path: &str) -> (r: Option<Inode>)
        requires
            old(self).wf(),
        ensures
            final(self).wf(),
            r == old(self)@.path(now, path@),
            final(self)@ == old(self)@.path_read(now, path@),
    {
        let key = (0i64, path.to_owned());
        proof {
            lemma_read_sound(
                self@.paths,
                text_key(path@),
                now,
                None,
                self.config.path_capacity as nat,
            );
        }
        match table_read(&mut self.path_cache, &key, now, None) {
            Some(CachedValue::Child(ino)) => Some(ino),
            _ => None,
        }
    }

    /// Caches the inode of a path.
    pub fn put_path(&mut self, now: u64, path: &str, ino: Inode)
        requires
            old(self).wf(),
            now + old(self).config.path_ttl <= u64::MAX,
        ensures
            final(self).wf(),
            final(self)@ == old(self)@.put_path(now, path@, ino),
    {
        let key = (0i64, path.to_owned());
        let entry = CachedEntry::new(CachedValue::Child(ino), now, self.config.path_ttl, 0);
        proof {
            lemma_set(self@.paths, self.config.path_capacity as nat, text_key(path@), entry);
        }
        table_put(&mut self.path_cache, key, entry);
    }

    /// Drops a path.
    pub fn invalidate_path(&mut self, path: &str)
        requires
            old(self).wf(),
        ensures
            final(self).wf(),
            final(self)@ == old(self)@.without_path(path@),
    {
        let key = (0i64, path.to_owned());
        proof {
            lemma_filter(self@.paths, other_key(text_key(path@)));
        }
        table_pop(&mut self.path_cache, &key);
    }

    /// Drops the paths that start with a prefix.
    pub fn invalidate_path_prefix(&mut self, prefix: &str)
        requires
            old(self).wf(),
        ensures
            final(self).wf(),
            final(self)@ == old(self)@.without_path_prefix(prefix@),
    {
        let keys = table_keys(&self.path_cache);
        let ghost items = self@.paths;
        let ghost goes = |key: TableKey| prefix@.is_prefix_of(key.1);
        proof {
            lemma_first_and_last(items, keys@, goes, not_below(prefix@));
            lemma_filter_sound(items, not_below(prefix@), self.config.path_capacity as nat);
        }
        let mut i: usize = 0;
        while i < keys.len()
            invariant
                i <= keys.len(),
                goes == (|key: TableKey| prefix@.is_prefix_of(key.1)),
                self@ == (CacheView {
                    paths: items.filter(spared(keys@, i as int, goes)),
                    ..old(self)@
                }),
                table_limit(self.attr_cache) == table_limit(old(self).attr_cache),
                table_limit(self.dentry_cache) == table_limit(old(self).dentry_cache),
                table_limit(self.path_cache) == table_limit(old(self).path_cache),
                table_limit(self.negative_cache) == table_limit(old(self).negative_cache),
            decreases keys.len() - i,
        {
            proof {
                lemma_one_more(items, keys@, i as int, goes);
            }
            if starts_with(keys[i].1.as_str(), prefix) {
                table_pop(&mut self.path_cache, &keys[i]);
            }
            i = i + 1;
        }
    }

    /// Whether a key is known not to exist.
    pub fn is_negative(&mut self, now: u64, key: &str) -> (r: bool)
        requires
            old(self).wf(),
        ensures
            final(self).wf(),
            r == old(self)@.negative(now, key@),
            final(self)@ == old(self)@.negative_read(now, key@),
    {
        let pair = (0i64, key.to_owned());
        let ghost items = self@.negatives;
        proof {
            lemma_used(items, text_key(key@));
            lemma_filter(items, other_key(text_key(key@)));
        }
        match table_get(&mut self.negative_cache, &pair) {
            Some(entry) => {
                if now < entry.expire_at {
                    true
                } else {
                    proof {
                        lemma_used_then_without(items, text_key(key@));
                    }
                    table_pop(&mut self.negative_cache, &pair);
                    false
                }
            },
            None => {
                proof {
                    lemma_nothing_to_remove(items, text_key(key@));
                }
                false
            },
        }
    }

    /// Notes that a key does not exist.
    pub fn put_negative(&mut self, now: u64, key: &str)
        requires
            old(self).wf(),
            now + old(self).config.negative_ttl <= u64::MAX,
        ensures
            final(self).wf(),
            final(self)@ == old(self)@.put_negative(now, key@),
    {
        let pair = (0i64, key.to_owned());
        let entry = CachedEntry::new(CachedValue::Absent, now, self.config.negative_ttl, 0);
        proof {
            lemma_set(
                self@.negatives,
                self.config.negative_capacity as nat,
                text_key(key@),
                entry,
            );
        }
        table_put(&mut self.negative_cache, pair, entry);
    }

    /// Forgets that a key does not exist.
    pub fn remove_negative(&mut self, key: &str)
        requires
            old(self).wf(),
        ensures
            final(self).wf(),
            final(self)@ == old(self)@.without_negative(key@),
    {
        let pair = (0i64, key.to_owned());
        proof {
            lemma_filter(self@.negatives, other_key(text_key(key@)));
        }
        table_pop(&mut self.negative_cache, &pair);
    }

    /// Drops everything.
    pub fn clear_all(&mut self)
        requires
            old(self).wf(),
        ensures
            final(self).wf(),
            final(self)@ == old(self)@.cleared(),
    {
        table_clear(&mut self.attr_cache);
        table_clear(&mut self.dentry_cache);
        table_clear(&mut self.path_cache);
        table_clear(&mut self.negative_cache);
    }

    /// What is in use.
    pub fn stats(&self) -> (r: CacheStats)
        ensures
            r.attr_size == self@.attrs.len(),
            r.attr_capacity == self.config.attr_capacity,
            r.dentry_size == self@.dentries.len(),
            r.dentry_capacity == self.config.dentry_capacity,
            r.path_size == self@.paths.len(),
            r.path_capacity == self.config.path_capacity,
            r.negative_size == self@.negatives.len(),
            r.negative_capacity == self.config.negative_capacity,
    {
        CacheStats {
            attr_size: table_len(&self.attr_cache),
            attr_capacity: self.config.attr_capacity,
            dentry_size: table_len(&self.dentry_cache),
            dentry_capacity: self.config.dentry_capacity,
            path_size: table_len(&self.path_cache),
            path_capacity: self.config.path_capacity,
            negative_size: table_len(&self.negative_cache),
            negative_capacity: self.config.negative_capacity,
        }
    }
}

/// What was cached is read back for as long as it counts: to the end of its time, and,
/// where a version is expected, in that version. That something does not exist counts
/// until just before the end of its time.
pub proof fn law_cached_is_read_back(
    c: CacheView,
    then: u64,
    now: u64,
    ino: Inode,
    attr: FileAttr,
    version: u64,
    parent: Inode,
    name: Seq<char>,
    child: Inode,
)
    requires
        c.sound(),
        c.config.in_time(then),
    ensures
        c.put_attr(then, ino, attr).attr(now, ino, None) == (if now <= then + c.config.attr_ttl {
            Some(attr)
        } else {
            None
        }),
        c.put_attr(then, ino, attr).attr(now, ino, Some(version)) == (if now <= then
            + c.config.attr_ttl && version == attr.version {
            Some(attr)
        } else {
            None
        }),
        c.put_dentry(then, parent, name, child).dentry(now, parent, name) == (if now <= then
            + c.config.dentry_ttl {
            Some(child)
        } else {
            None
        }),
        c.put_path(then, name, child).path(now, name) == (if now <= then + c.config.path_ttl {
            Some(child)
        } else {
            None
        }),
        c.put_negative(then, name).negative(now, name) == (now < then + c.config.negative_ttl),
{
    lemma_set(
        c.attrs,
        c.config.attr_capacity as nat,
        attr_key(ino),
        timed(CachedValue::Attr(attr), then, c.config.attr_ttl, attr.version),
    );
    lemma_set(
        c.dentries,
        c.config.dentry_capacity as nat,
        dentry_key(parent, name),
        timed(CachedValue::Child(child), then, c.config.dentry_ttl, 0),
    );
    lemma_set(
        c.paths,
        c.config.path_capacity as nat,
        text_key(name),
        timed(CachedValue::Child(child), then, c.config.path_ttl, 0),
    );
    lemma_set(
        c.negatives,
        c.config.negative_capacity as nat,
        text_key(name),
        timed(CachedValue::Absent, then, c.config.negative_ttl, 0),
    );
}

/// To cache one thing changes no other answer but to a miss, and not even that while there is room.
pub proof fn law_caching_spoils_nothing(
    c: CacheView,
    then: u64,
    now: u64,
    ino: Inode,
    attr: FileAttr,
    other: Inode,
    parent: Inode,
    name: Seq<char>,
    child: Inode,
    other_parent: Inode,
    other_name: Seq<char>,
)
    requires
        c.sound(),
        c.config.in_time(then),
    ensures
        other != ino ==> (c.put_attr(then, ino, attr).attr(now, other, None) == c.attr(
            now,
            other,
            None,
        ) || (c.put_attr(then, ino, attr).attr(now, other, None) is None && c.attrs.len()
            == c.config.attr_capacity)),
        (other_parent, other_name) != (parent, name) ==> (c.put_dentry(
            then,
            parent,
            name,
            child,
        ).dentry(now, other_parent, other_name) == c.dentry(now, other_parent, other_name) || (
        c.put_dentry(then, parent, name, child).dentry(now, other_parent, other_name) is None
            && c.dentries.len() == c.config.dentry_capacity)),
{
    lemma_set(
        c.attrs,
        c.config.attr_capacity as nat,
        attr_key(ino),
        timed(CachedValue::Attr(attr), then, c.config.attr_ttl, attr.version),
    );
    lemma_set(
        c.dentries,
        c.config.dentry_capacity as nat,
        dentry_key(parent, name),
        timed(CachedValue::Child(child), then, c.config.dentry_ttl, 0),
    );
    assert(attr_key(other) != attr_key(ino) || other == ino);
}

/// What was dropped is not read any more, and everything else is read as before.
pub proof fn law_dropped_is_gone(
    c: CacheView,
    now: u64,
    ino: Inode,
    other: Inode,
    parent: Inode,
    name: Seq<char>,
    other_parent: Inode,
    other_name: Seq<char>,
)
    requires
        c.sound(),
    ensures
        c.without_attr(ino).attr(now, other, None) == (if other == ino {
            None
        } else {
            c.attr(now, other, None)
        }),
        c.without_dentry(parent, name).dentry(now, other_parent, other_name) == (if (
            other_parent,
            other_name,
        ) == (parent, name) {
            None
        } else {
            c.dentry(now, other_parent, other_name)
        }),
        c.without_dir(parent).dentry(now, other_parent, other_name) == (if other_parent == parent {
            None
        } else {
            c.dentry(now, other_parent, other_name)
        }),
        c.without_path(name).path(now, other_name) == (if other_name == name {
            None
        } else {
            c.path(now, other_name)
        }),
        c.without_path_prefix(name).path(now, other_name) == (if name.is_prefix_of(other_name) {
            None
        } else {
            c.path(now, other_name)
        }),
        c.without_negative(name).negative(now, other_name) == (other_name != name && c.negative(
            now,
            other_name,
        )),
{
    lemma_filter_found(c.attrs, other_key(attr_key(ino)), attr_key(other));
    assert(attr_key(other) != attr_key(ino) || other == ino);
    lemma_filter_found(
        c.dentries,
        other_key(dentry_key(parent, name)),
        dentry_key(other_parent, other_name),
    );
    assert(dentry_key(other_parent, other_name) != dentry_key(parent, name) || (
        other_parent,
        other_name,
    ) == (parent, name));
    lemma_filter_found(c.dentries, elsewhere(parent), dentry_key(other_parent, other_name));
    lemma_filter_found(c.paths, other_key(text_key(name)), text_key(other_name));
    lemma_filter_found(c.paths, not_below(name), text_key(other_name));
    lemma_filter_found(c.negatives, other_key(text_key(name)), text_key(other_name));
}

/// A read changes no answer that is given at the same time.
pub proof fn law_reading_changes_no_answer(
    c: CacheView,
    now: u64,
    ino: Inode,
    other: Inode,
    parent: Inode,
    name: Seq<char>,
    other_parent: Inode,
    other_name: Seq<char>,
)
    requires
        c.sound(),
    ensures
        c.attr_read(now, ino, None).attr(now, other, None) == c.attr(now, other, None),
        c.dentry_read(now, parent, name).dentry(now, other_parent, other_name) == c.dentry(
            now,
            other_parent,
            other_name,
        ),
        c.path_read(now, name).path(now, other_name) == c.path(now, other_name),
        c.negative_read(now, name).negative(now, other_name) == c.negative(now, other_name),
{
    lemma_used(c.attrs, attr_key(ino));
    lemma_filter_found(c.attrs, other_key(attr_key(ino)), attr_key(other));
    lemma_used(c.dentries, dentry_key(parent, name));
    lemma_filter_found(
        c.dentries,
        other_key(dentry_key(parent, name)),
        dentry_key(other_parent, other_name),
    );
    lemma_used(c.paths, text_key(name));
    lemma_filter_found(c.paths, other_key(text_key(name)), text_key(other_name));
    lemma_used(c.negatives, text_key(name));
    lemma_filter_found(c.negatives, other_key(text_key(name)), text_key(other_name));
}

} // verus!
