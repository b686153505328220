//! Caching is transparent: while one client alone writes, what it answers without asking is what
//! the store would answer.

use crate::meta::cache::{
    attr_key, dentry_key, elsewhere, not_below, read, text_key, timed, CacheView, CachedEntry,
    CachedValue,
};
use crate::meta::client::{
    absence_key, create_taken, known, looked_up, put_entries, put_entries_plus, rename_taken,
    rmdir_taken, unlink_taken, PathWalk,
};
use crate::meta::client_calls::{
    begun, is_store_request, stands_for, taken, went_on, AnswerView, CallStepView,
};
use crate::meta::etcd::keys::lemma_dec_has_no_colon;
use crate::meta::lru_table::{
    distinct, found, lemma_filter, lemma_filter_found, lemma_set, lemma_used, other_key, stored,
    without, TableItem, TableKey,
};
use crate::meta::store::{result_view, DirEntry, ErrorView, FileAttr, FileType};
use crate::meta::types::Inode;
use crate::text::{components, dec, law_decimal_is_injective, texts};
use crate::vfs::op::{FsReply, FsRequestView};
use crate::vfs::tree::{attr_fits, fs_answers, Tree};
use vstd::prelude::*;

verus! {

/// Whether what is cached of a name is what it stands for.
pub open spec fn dentry_true(items: Seq<TableItem>, t: Tree, parent: i64, name: Seq<char>) -> bool {
    found(items, dentry_key(Inode(parent), name)) matches Some(e) ==> (
    e.value matches CachedValue::Child(ino) ==> t.child(parent, name) == Some(ino.0))
}

/// Whether a name that is cached as absent is absent.
pub open spec fn absence_true(
    items: Seq<TableItem>,
    t: Tree,
    parent: i64,
    name: Seq<char>,
) -> bool {
    found(items, text_key(absence_key(Inode(parent), name))) is Some ==> t.child(parent, name)
        is None
}

/// Whether the attributes that are cached of an inode are its attributes.
pub open spec fn attr_true(items: Seq<TableItem>, t: Tree, ino: i64) -> bool {
    found(items, attr_key(Inode(ino))) matches Some(e) ==> (e.value matches CachedValue::Attr(attr)
        ==> attr_fits(t, ino, attr))
}

/// Whether what is cached of a path is where its names lead.
pub open spec fn path_true(items: Seq<TableItem>, t: Tree, path: Seq<char>) -> bool {
    found(items, text_key(path)) matches Some(e) ==> (e.value matches CachedValue::Child(ino)
        ==> t.walk(components(path)) == Some(ino.0))
}

/// Whether all cached names are true.
pub open spec fn dentries_true(items: Seq<TableItem>, t: Tree) -> bool {
    forall|parent: i64, name: Seq<char>| #[trigger] dentry_true(items, t, parent, name)
}

/// Whether all cached absences are true.
pub open spec fn absences_true(items: Seq<TableItem>, t: Tree) -> bool {
    forall|parent: i64, name: Seq<char>| #[trigger] absence_true(items, t, parent, name)
}

/// Whether all cached attributes are true.
pub open spec fn attrs_true(items: Seq<TableItem>, t: Tree) -> bool {
    forall|ino: i64| #[trigger] attr_true(items, t, ino)
}

/// Whether all cached paths are true.
pub open spec fn paths_true(items: Seq<TableItem>, t: Tree) -> bool {
    forall|path: Seq<char>| #[trigger] path_true(items, t, path)
}

/// Whether all that is cached is true of the tree that the store keeps.
pub open spec fn truthful(c: CacheView, t: Tree) -> bool {
    &&& dentries_true(c.dentries, t)
    &&& absences_true(c.negatives, t)
    &&& attrs_true(c.attrs, t)
    &&& paths_true(c.paths, t)
}

/// Whatever a truthful cache answers is what the store answers: of a name what it stands for or
/// that there is none, of an inode its attributes, of a path where it leads.
pub proof fn law_truthful_cache_answers_as_the_store(
    c: CacheView,
    t: Tree,
    now: u64,
    parent: Inode,
    name: Seq<char>,
    ino: Inode,
    path: Seq<char>,
)
    requires
        truthful(c, t),
    ensures
        known(c, now, parent, name) matches Some(answer) ==> answer == (match t.child(
            parent.0,
            name,
        ) {
            Some(child) => Ok::<Inode, ErrorView>(Inode(child)),
            None => Err(ErrorView::NotFound(parent.0)),
        }),
        c.attr(now, ino, None) matches Some(attr) ==> attr_fits(t, ino.0, attr),
        c.path(now, path) matches Some(at) ==> t.walk(components(path)) == Some(at.0),
{
    assert(dentry_true(c.dentries, t, parent.0, name));
    assert(absence_true(c.negatives, t, parent.0, name));
    assert(attr_true(c.attrs, t, ino.0));
    assert(path_true(c.paths, t, path));
}

/// Whether every key holds in a table what it holds in another, or nothing.
spec fn fewer(less: Seq<TableItem>, items: Seq<TableItem>) -> bool {
    forall|k: TableKey| (#[trigger] found(less, k)) is None || found(less, k) == found(items, k)
}

/// A filter leaves fewer items.
proof fn lemma_filter_fewer(items: Seq<TableItem>, keep: spec_fn(TableItem) -> bool)
    requires
        distinct(items),
    ensures
        fewer(items.filter(keep), items),
        distinct(items.filter(keep)),
        items.filter(keep).len() <= items.len(),
{
    lemma_filter(items, keep);
    assert forall|k: TableKey|
        (#[trigger] found(items.filter(keep), k)) is None || found(items.filter(keep), k) == found(
            items,
            k,
        ) by {
        lemma_filter_found(items, keep, k);
    }
}

/// Fewer names are as true.
proof fn lemma_fewer_dentries(less: Seq<TableItem>, items: Seq<TableItem>, t: Tree)
    requires
        fewer(less, items),
        dentries_true(items, t),
    ensures
        dentries_true(less, t),
{
    assert forall|p: i64, n: Seq<char>| #[trigger] dentry_true(less, t, p, n) by {
        assert(dentry_true(items, t, p, n));
    }
}

/// Fewer absences are as true.
proof fn lemma_fewer_absences(less: Seq<TableItem>, items: Seq<TableItem>, t: Tree)
    requires
        fewer(less, items),
        absences_true(items, t),
    ensures
        absences_true(less, t),
{
    assert forall|p: i64, n: Seq<char>| #[trigger] absence_true(less, t, p, n) by {
        assert(absence_true(items, t, p, n));
    }
}

/// Fewer attributes are as true.
proof fn lemma_fewer_attrs(less: Seq<TableItem>, items: Seq<TableItem>, t: Tree)
    requires
        fewer(less, items),
        attrs_true(items, t),
    ensures
        attrs_true(less, t),
{
    assert forall|ino: i64| #[trigger] attr_true(less, t, ino) by {
        assert(attr_true(items, t, ino));
    }
}

/// Fewer paths are as true.
proof fn lemma_fewer_paths(less: Seq<TableItem>, items: Seq<TableItem>, t: Tree)
    requires
        fewer(less, items),
        paths_true(items, t),
    ensures
        paths_true(less, t),
{
    assert forall|path: Seq<char>| #[trigger] path_true(less, t, path) by {
        assert(path_true(items, t, path));
    }
}

/// One true name more.
proof fn lemma_store_dentry(
    items: Seq<TableItem>,
    limit: nat,
    parent: Inode,
    name: Seq<char>,
    entry: CachedEntry<CachedValue>,
    t: Tree,
)
    requires
        distinct(items),
        items.len() <= limit,
        0 < limit,
        dentries_true(items, t),
        entry.value matches CachedValue::Child(ino) && t.child(parent.0, name) == Some(ino.0),
    ensures
        dentries_true(stored(items, limit, dentry_key(parent, name), entry), t),
{
    let key = dentry_key(parent, name);
    lemma_set(items, limit, key, entry);
    let more = stored(items, limit, key, entry);
    assert forall|p: i64, n: Seq<char>| #[trigger] dentry_true(more, t, p, n) by {
        assert(dentry_true(items, t, p, n));
        let k = dentry_key(Inode(p), n);
        assert(k != key ==> found(more, k) == found(items, k) || found(more, k) is None);
    }
}

/// The true attributes of one inode more.
proof fn lemma_store_attr(
    items: Seq<TableItem>,
    limit: nat,
    ino: Inode,
    entry: CachedEntry<CachedValue>,
    t: Tree,
)
    requires
        distinct(items),
        items.len() <= limit,
        0 < limit,
        forall|other: i64| other != ino.0 ==> #[trigger] attr_true(items, t, other),
        entry.value matches CachedValue::Attr(attr) && attr_fits(t, ino.0, attr),
    ensures
        attrs_true(stored(items, limit, attr_key(ino), entry), t),
{
    let key = attr_key(ino);
    lemma_set(items, limit, key, entry);
    let more = stored(items, limit, key, entry);
    assert forall|other: i64| #[trigger] attr_true(more, t, other) by {
        let k = attr_key(Inode(other));
        if other != ino.0 {
            assert(attr_true(items, t, other));
            assert(found(more, k) == found(items, k) || found(more, k) is None);
        }
    }
}

/// One true path more.
proof fn lemma_store_path(
    items: Seq<TableItem>,
    limit: nat,
    path: Seq<char>,
    entry: CachedEntry<CachedValue>,
    t: Tree,
)
    requires
        distinct(items),
        items.len() <= limit,
        0 < limit,
        paths_true(items, t),
        entry.value matches CachedValue::Child(ino) && t.walk(components(path)) == Some(ino.0),
    ensures
        paths_true(stored(items, limit, text_key(path), entry), t),
{
    let key = text_key(path);
    lemma_set(items, limit, key, entry);
    let more = stored(items, limit, key, entry);
    assert forall|other: Seq<char>| #[trigger] path_true(more, t, other) by {
        assert(path_true(items, t, other));
        let k = text_key(other);
        assert(k != key ==> found(more, k) == found(items, k) || found(more, k) is None);
    }
}

/// Two names have one key for their absence only if they are the same name in the same directory.
pub proof fn law_absence_keys_are_distinct(p: i64, n: Seq<char>, q: i64, m: Seq<char>)
    requires
        absence_key(Inode(p), n) == absence_key(Inode(q), m),
    ensures
        p == q,
        n == m,
{
    reveal_strlit(":");
    let a = dec(p as int);
    let b = dec(q as int);
    let k = absence_key(Inode(p), n);
    let l = absence_key(Inode(q), m);
    assert(k[a.len() as int] == ':');
    assert(l[b.len() as int] == ':');
    if a.len() < b.len() {
        lemma_dec_has_no_colon(q as int, a.len() as int);
        assert(l[a.len() as int] == b[a.len() as int]);
    } else if b.len() < a.len() {
        lemma_dec_has_no_colon(p as int, b.len() as int);
        assert(k[b.len() as int] == a[b.len() as int]);
    }
    assert(a =~= b) by {
        assert forall|i: int| 0 <= i < a.len() implies a[i] == b[i] by {
            assert(k[i] == a[i]);
            assert(l[i] == b[i]);
        }
    }
    law_decimal_is_injective(p, q);
    assert(n =~= m) by {
        assert(k.len() == a.len() + 1 + n.len());
        assert(l.len() == b.len() + 1 + m.len());
        assert forall|i: int| 0 <= i < n.len() implies n[i] == m[i] by {
            assert(k[a.len() + 1 + i] == n[i]);
            assert(l[a.len() + 1 + i] == m[i]);
        }
    }
}

/// One true absence more.
proof fn lemma_store_absence(
    items: Seq<TableItem>,
    limit: nat,
    parent: Inode,
    name: Seq<char>,
    entry: CachedEntry<CachedValue>,
    t: Tree,
)
    requires
        distinct(items),
        items.len() <= limit,
        0 < limit,
        absences_true(items, t),
        t.child(parent.0, name) is None,
    ensures
        absences_true(stored(items, limit, text_key(absence_key(parent, name)), entry), t),
{
    let key = text_key(absence_key(parent, name));
    lemma_set(items, limit, key, entry);
    let more = stored(items, limit, key, entry);
    assert forall|p: i64, n: Seq<char>| #[trigger] absence_true(more, t, p, n) by {
        assert(absence_true(items, t, p, n));
        let k = text_key(absence_key(Inode(p), n));
        if k == key {
            law_absence_keys_are_distinct(p, n, parent.0, name);
        } else {
            assert(found(more, k) == found(items, k) || found(more, k) is None);
        }
    }
}

/// Empty caches are truthful.
pub proof fn law_empty_cache_is_truthful(c: CacheView, t: Tree)
    ensures
        truthful(c.cleared(), t),
{
    let none = Seq::<TableItem>::empty();
    assert forall|p: i64, n: Seq<char>| #[trigger] dentry_true(none, t, p, n) by {}
    assert forall|p: i64, n: Seq<char>| #[trigger] absence_true(none, t, p, n) by {}
    assert forall|ino: i64| #[trigger] attr_true(none, t, ino) by {}
    assert forall|path: Seq<char>| #[trigger] path_true(none, t, path) by {}
}

/// A read of a table leaves what every key holds, or drops what does not count any more.
proof fn lemma_read_fewer(items: Seq<TableItem>, key: TableKey, now: u64, version: Option<u64>)
    requires
        distinct(items),
    ensures
        fewer(read(items, key, now, version), items),
{
    lemma_used(items, key);
    lemma_filter_fewer(items, other_key(key));
}

/// Reading from the caches, and dropping from them what others have made stale, keeps them
/// truthful.
pub proof fn law_reading_and_dropping_keep_truth(
    c: CacheView,
    t: Tree,
    now: u64,
    ino: Inode,
    parent: Inode,
    name: Seq<char>,
    path: Seq<char>,
)
    requires
        c.sound(),
        truthful(c, t),
    ensures
        truthful(c.attr_read(now, ino, None), t),
        truthful(looked_up(c, now, parent, name), t),
        truthful(c.path_read(now, path), t),
        truthful(c.without_attr(ino), t),
        truthful(c.without_dir(parent), t),
        truthful(c.without_path_prefix(path), t),
        truthful(c.cleared(), t),
{
    law_empty_cache_is_truthful(c, t);
    lemma_read_fewer(c.attrs, attr_key(ino), now, None);
    lemma_fewer_attrs(read(c.attrs, attr_key(ino), now, None), c.attrs, t);
    lemma_filter_fewer(c.attrs, other_key(attr_key(ino)));
    lemma_fewer_attrs(without(c.attrs, attr_key(ino)), c.attrs, t);
    let d = dentry_key(parent, name);
    lemma_read_fewer(c.dentries, d, now, None);
    lemma_fewer_dentries(read(c.dentries, d, now, None), c.dentries, t);
    lemma_filter_fewer(c.dentries, elsewhere(parent));
    lemma_fewer_dentries(c.dentries.filter(elsewhere(parent)), c.dentries, t);
    let n = text_key(absence_key(parent, name));
    lemma_used(c.negatives, n);
    lemma_filter_fewer(c.negatives, other_key(n));
    let negatives = looked_up(c, now, parent, name).negatives;
    assert(fewer(negatives, c.negatives));
    lemma_fewer_absences(negatives, c.negatives, t);
    lemma_read_fewer(c.paths, text_key(path), now, None);
    lemma_fewer_paths(read(c.paths, text_key(path), now, None), c.paths, t);
    lemma_filter_fewer(c.paths, not_below(path));
    lemma_fewer_paths(c.paths.filter(not_below(path)), c.paths, t);
}

/// Without all paths none is known.
proof fn lemma_no_paths(items: Seq<TableItem>, t: Tree)
    requires
        distinct(items),
    ensures
        paths_true(items.filter(not_below(Seq::empty())), t),
{
    let keep = not_below(Seq::empty());
    assert forall|path: Seq<char>| #[trigger] path_true(items.filter(keep), t, path) by {
        lemma_filter_found(items, keep, text_key(path));
        assert(Seq::<char>::empty().is_prefix_of(path));
    }
}

/// What leads somewhere leads there where there are more names too.
proof fn lemma_more_names(t: Tree, t2: Tree, parts: Seq<Seq<char>>)
    requires
        t2.root == t.root,
        forall|at: (i64, Seq<char>)| #[trigger]
            t.names.dom().contains(at) ==> t2.names.dom().contains(at) && t2.names[at]
                == t.names[at],
    ensures
        t.walk(parts) matches Some(ino) ==> t2.walk(parts) == Some(ino),
    decreases parts.len(),
{
    if parts.len() > 0 {
        lemma_more_names(t, t2, parts.drop_last());
        if let Some(dir) = t.walk(parts.drop_last()) {
            assert(t.names.dom().contains((dir, parts.last())) ==> t2.names.dom().contains(
                (dir, parts.last()),
            ));
        }
    }
}

/// A name more in the tree, in its directory.
proof fn lemma_taken_created(
    c: CacheView,
    t: Tree,
    now: u64,
    parent: Inode,
    name: Seq<char>,
    ino: Inode,
    attr: FileAttr,
    kind: FileType,
)
    requires
        c.sound(),
        truthful(c, t),
        t.child(parent.0, name) is None,
        !t.kinds.dom().contains(ino.0),
        attr_fits(t.with(parent.0, name, ino.0, kind), ino.0, attr),
    ensures
        truthful(
            create_taken(c, now, parent, name, ino, attr),
            t.with(parent.0, name, ino.0, kind),
        ),
{
    let t2 = t.with(parent.0, name, ino.0, kind);
    let entry = timed(CachedValue::Child(ino), now, c.config.dentry_ttl, 0);
    assert forall|p: i64, n: Seq<char>| #[trigger] dentry_true(c.dentries, t2, p, n) by {
        assert(dentry_true(c.dentries, t, p, n));
    }
    lemma_store_dentry(
        c.dentries,
        c.config.dentry_capacity as nat,
        parent,
        name,
        entry,
        t2,
    );
    let more = stored(
        c.dentries,
        c.config.dentry_capacity as nat,
        dentry_key(parent, name),
        entry,
    );
    lemma_set(c.dentries, c.config.dentry_capacity as nat, dentry_key(parent, name), entry);
    lemma_filter_fewer(more, elsewhere(parent));
    lemma_fewer_dentries(more.filter(elsewhere(parent)), more, t2);
    assert forall|other: i64| other != ino.0 implies #[trigger] attr_true(c.attrs, t2, other) by {
        assert(attr_true(c.attrs, t, other));
    }
    lemma_store_attr(
        c.attrs,
        c.config.attr_capacity as nat,
        ino,
        timed(CachedValue::Attr(attr), now, c.config.attr_ttl, attr.version),
        t2,
    );
    let key = text_key(absence_key(parent, name));
    assert forall|p: i64, n: Seq<char>| #[trigger]
        absence_true(without(c.negatives, key), t2, p, n) by {
        assert(absence_true(c.negatives, t, p, n));
        lemma_filter_found(c.negatives, other_key(key), text_key(absence_key(Inode(p), n)));
    }
    assert forall|path: Seq<char>| #[trigger] path_true(c.paths, t2, path) by {
        assert(path_true(c.paths, t, path));
        lemma_more_names(t, t2, components(path));
    }
}

/// A name less in the tree.
proof fn lemma_taken_removed(
    c: CacheView,
    t: Tree,
    now: u64,
    parent: Inode,
    name: Seq<char>,
    child: Inode,
)
    requires
        c.sound(),
        truthful(c, t),
        t.child(parent.0, name) == Some(child.0),
    ensures
        truthful(unlink_taken(c, now, parent, name, child), t.without(parent.0, name)),
        truthful(rmdir_taken(c, now, parent, name, child), t.without(parent.0, name)),
{
    let t2 = t.without(parent.0, name);
    let attrs = without(c.attrs, attr_key(child));
    assert forall|other: i64| #[trigger] attr_true(attrs, t2, other) by {
        assert(attr_true(c.attrs, t, other));
        lemma_filter_found(c.attrs, other_key(attr_key(child)), attr_key(Inode(other)));
    }
    let key = dentry_key(parent, name);
    let d1 = without(c.dentries, key);
    lemma_filter_fewer(c.dentries, other_key(key));
    let d2 = d1.filter(elsewhere(parent));
    lemma_filter_fewer(d1, elsewhere(parent));
    assert forall|p: i64, n: Seq<char>| #[trigger] dentry_true(d2, t2, p, n) by {
        assert(dentry_true(c.dentries, t, p, n));
        lemma_filter_found(d1, elsewhere(parent), dentry_key(Inode(p), n));
        lemma_filter_found(c.dentries, other_key(key), dentry_key(Inode(p), n));
    }
    lemma_filter_fewer(d2, elsewhere(child));
    lemma_fewer_dentries(d2.filter(elsewhere(child)), d2, t2);
    assert forall|p: i64, n: Seq<char>| #[trigger] absence_true(c.negatives, t2, p, n) by {
        assert(absence_true(c.negatives, t, p, n));
    }
    lemma_store_absence(
        c.negatives,
        c.config.negative_capacity as nat,
        parent,
        name,
        timed(CachedValue::Absent, now, c.config.negative_ttl, 0),
        t2,
    );
    lemma_no_paths(c.paths, t2);
}

/// A name moved in the tree.
proof fn lemma_taken_moved(
    c: CacheView,
    t: Tree,
    old_parent: Inode,
    old_name: Seq<char>,
    new_parent: Inode,
    new_name: Seq<char>,
)
    requires
        c.sound(),
        truthful(c, t),
        t.child(old_parent.0, old_name) is Some,
    ensures
        truthful(
            rename_taken(c, old_parent, old_name, new_parent, new_name),
            t.moved(old_parent.0, old_name, new_parent.0, new_name),
        ),
{
    let t2 = t.moved(old_parent.0, old_name, new_parent.0, new_name);
    assert forall|other: i64| #[trigger] attr_true(c.attrs, t2, other) by {
        assert(attr_true(c.attrs, t, other));
    }
    let key = dentry_key(old_parent, old_name);
    let d1 = without(c.dentries, key);
    lemma_filter_fewer(c.dentries, other_key(key));
    let d2 = d1.filter(elsewhere(old_parent));
    lemma_filter_fewer(d1, elsewhere(old_parent));
    let d3 = d2.filter(elsewhere(new_parent));
    assert forall|p: i64, n: Seq<char>| #[trigger] dentry_true(d3, t2, p, n) by {
        assert(dentry_true(c.dentries, t, p, n));
        lemma_filter_found(d2, elsewhere(new_parent), dentry_key(Inode(p), n));
        lemma_filter_found(d1, elsewhere(old_parent), dentry_key(Inode(p), n));
        lemma_filter_found(c.dentries, other_key(key), dentry_key(Inode(p), n));
    }
    let k1 = text_key(absence_key(old_parent, old_name));
    let k2 = text_key(absence_key(new_parent, new_name));
    let n1 = without(c.negatives, k1);
    lemma_filter_fewer(c.negatives, other_key(k1));
    assert forall|p: i64, n: Seq<char>| #[trigger] absence_true(without(n1, k2), t2, p, n) by {
        assert(absence_true(c.negatives, t, p, n));
        lemma_filter_found(n1, other_key(k2), text_key(absence_key(Inode(p), n)));
        lemma_filter_found(c.negatives, other_key(k1), text_key(absence_key(Inode(p), n)));
    }
    lemma_no_paths(c.paths, t2);
}

/// A listing of true entries, taken entry by entry, keeps the caches sound and truthful.
proof fn lemma_taken_entries(c: CacheView, t: Tree, now: u64, dir: Inode, list: Seq<DirEntry>)
    requires
        c.sound(),
        truthful(c, t),
        forall|i: int|
            0 <= i < list.len() ==> t.child(dir.0, (#[trigger] list[i]).name@) == Some(list[i].ino),
    ensures
        put_entries(c, now, dir, list).sound(),
        put_entries(c, now, dir, list).config == c.config,
        truthful(put_entries(c, now, dir, list), t),
    decreases list.len(),
{
    if list.len() > 0 {
        let less = list.drop_last();
        assert forall|i: int| 0 <= i < less.len() implies t.child(
            dir.0,
            (#[trigger] less[i]).name@,
        ) == Some(less[i].ino) by {
            assert(less[i] == list[i]);
        }
        lemma_taken_entries(c, t, now, dir, less);
        let c1 = put_entries(c, now, dir, less);
        let last = list[list.len() - 1];
        let entry = timed(CachedValue::Child(Inode(last.ino)), now, c.config.dentry_ttl, 0);
        let limit = c.config.dentry_capacity as nat;
        lemma_store_dentry(c1.dentries, limit, dir, last.name@, entry, t);
        lemma_set(c1.dentries, limit, dentry_key(dir, last.name@), entry);
    }
}

/// Every reply of the store keeps the caches truthful: what is cached after it is true of the tree
/// that the store keeps after it.
pub proof fn law_replies_keep_the_cache_truthful(
    c: CacheView,
    t: Tree,
    now: u64,
    req: FsRequestView,
    reply: FsReply,
    t2: Tree,
    child: Inode,
)
    requires
        c.sound(),
        truthful(c, t),
        is_store_request(req),
        fs_answers(t, req, reply, t2),
        req matches FsRequestView::Unlink { parent, name } ==> (t.child(parent.0, name) is Some
            ==> t.child(parent.0, name) == Some(child.0)),
        req matches FsRequestView::Rmdir { parent, name } ==> (t.child(parent.0, name) is Some
            ==> t.child(parent.0, name) == Some(child.0)),
    ensures
        truthful(taken(c, now, req, reply, child), t2),
{
    match req {
        FsRequestView::Lookup { parent, name } => {
            match reply {
                FsReply::Child(Ok(found_child)) => {
                    lemma_store_dentry(
                        c.dentries,
                        c.config.dentry_capacity as nat,
                        parent,
                        name,
                        timed(CachedValue::Child(found_child), now, c.config.dentry_ttl, 0),
                        t,
                    );
                    let key = text_key(absence_key(parent, name));
                    lemma_filter_fewer(c.negatives, other_key(key));
                    lemma_fewer_absences(without(c.negatives, key), c.negatives, t);
                },
                _ => {
                    lemma_store_absence(
                        c.negatives,
                        c.config.negative_capacity as nat,
                        parent,
                        name,
                        timed(CachedValue::Absent, now, c.config.negative_ttl, 0),
                        t,
                    );
                },
            }
        },
        FsRequestView::Getattr(ino) => {
            if let FsReply::Attr(Ok(attr)) = reply {
                lemma_store_attr(
                    c.attrs,
                    c.config.attr_capacity as nat,
                    ino,
                    timed(CachedValue::Attr(attr), now, c.config.attr_ttl, attr.version),
                    t,
                );
            }
        },
        FsRequestView::Setattr(ino, _) => {
            if let FsReply::Attr(Ok(attr)) = reply {
                assert forall|other: i64| other != ino.0 implies #[trigger] attr_true(
                    c.attrs,
                    t2,
                    other,
                ) by {
                    assert(attr_true(c.attrs, t, other));
                }
                lemma_store_attr(
                    c.attrs,
                    c.config.attr_capacity as nat,
                    ino,
                    timed(CachedValue::Attr(attr), now, c.config.attr_ttl, attr.version),
                    t2,
                );
                lemma_same_names(c, t, t2);
            }
        },
        FsRequestView::Readdir(ino) => {
            if let FsReply::Entries(Ok(list)) = reply {
                lemma_taken_entries(c, t, now, ino, list@);
            }
        },
        FsRequestView::Create(p) => {
            if let FsReply::Created(Ok(made)) = reply {
                lemma_taken_created(c, t, now, p.parent, p.name, made.0, made.1, p.kind);
            }
        },
        FsRequestView::Unlink { parent, name } => {
            if let FsReply::Done(Ok(_)) = reply {
                lemma_taken_removed(c, t, now, parent, name, child);
            }
        },
        FsRequestView::Rmdir { parent, name } => {
            if let FsReply::Done(Ok(_)) = reply {
                lemma_taken_removed(c, t, now, parent, name, child);
            }
        },
        FsRequestView::Rename { old_parent, old_name, new_parent, new_name } => {
            if let FsReply::Done(Ok(_)) = reply {
                lemma_taken_moved(c, t, old_parent, old_name, new_parent, new_name);
            }
        },
        FsRequestView::WriteData { .. } => {
            lemma_same_names(c, t, t2);
            assert forall|ino: i64| #[trigger] attr_true(c.attrs, t2, ino) by {
                assert(attr_true(c.attrs, t, ino));
            }
        },
        _ => {},
    }
}

/// Where a tree has the same names, names, absences and paths are as true of it.
proof fn lemma_same_names(c: CacheView, t: Tree, t2: Tree)
    requires
        truthful(c, t),
        t2.names == t.names,
        t2.root == t.root,
    ensures
        dentries_true(c.dentries, t2),
        absences_true(c.negatives, t2),
        paths_true(c.paths, t2),
{
    assert forall|p: i64, n: Seq<char>| #[trigger] dentry_true(c.dentries, t2, p, n) by {
        assert(dentry_true(c.dentries, t, p, n));
    }
    assert forall|p: i64, n: Seq<char>| #[trigger] absence_true(c.negatives, t2, p, n) by {
        assert(absence_true(c.negatives, t, p, n));
    }
    assert forall|path: Seq<char>| #[trigger] path_true(c.paths, t2, path) by {
        assert(path_true(c.paths, t, path));
        lemma_same_walk(t, t2, components(path));
    }
}

/// Where a tree has the same names, every path leads to the same inode.
proof fn lemma_same_walk(t: Tree, t2: Tree, parts: Seq<Seq<char>>)
    requires
        t2.names == t.names,
        t2.root == t.root,
    ensures
        t2.walk(parts) == t.walk(parts),
    decreases parts.len(),
{
    if parts.len() > 0 {
        lemma_same_walk(t, t2, parts.drop_last());
    }
}

/// A listing with attributes that is true of the tree keeps the caches truthful.
pub proof fn law_listing_with_attributes_keeps_truth(
    c: CacheView,
    t: Tree,
    now: u64,
    dir: Inode,
    list: Seq<(DirEntry, FileAttr)>,
)
    requires
        c.sound(),
        truthful(c, t),
        forall|i: int|
            0 <= i < list.len() ==> t.child(dir.0, (#[trigger] list[i]).0.name@) == Some(
                list[i].0.ino,
            ) && attr_fits(t, list[i].0.ino, list[i].1),
    ensures
        put_entries_plus(c, now, dir, list).sound(),
        put_entries_plus(c, now, dir, list).config == c.config,
        truthful(put_entries_plus(c, now, dir, list), t),
    decreases list.len(),
{
    if list.len() > 0 {
        let less = list.drop_last();
        assert forall|i: int| 0 <= i < less.len() implies t.child(
            dir.0,
            (#[trigger] less[i]).0.name@,
        ) == Some(less[i].0.ino) && attr_fits(t, less[i].0.ino, less[i].1) by {
            assert(less[i] == list[i]);
        }
        law_listing_with_attributes_keeps_truth(c, t, now, dir, less);
        let c1 = put_entries_plus(c, now, dir, less);
        let last = list[list.len() - 1];
        let child = Inode(last.0.ino);
        let entry = timed(CachedValue::Child(child), now, c.config.dentry_ttl, 0);
        let limit = c.config.dentry_capacity as nat;
        lemma_store_dentry(c1.dentries, limit, dir, last.0.name@, entry, t);
        lemma_set(c1.dentries, limit, dentry_key(dir, last.0.name@), entry);
        let attr = timed(CachedValue::Attr(last.1), now, c.config.attr_ttl, last.1.version);
        let room = c.config.attr_capacity as nat;
        lemma_store_attr(c1.attrs, room, child, attr, t);
        lemma_set(c1.attrs, room, attr_key(child), attr);
    }
}

/// Whether a walk of a path has come where the names before lead.
pub open spec fn walk_true(w: PathWalk, t: Tree) -> bool {
    w.wf() && t.walk(components(w.path@).take(w.at as int)) == Some(w.current.0)
}

/// A walk of a path that takes true answers stays where the names before lead, and what it caches
/// at its end is where the path leads. So what a path is resolved to is what the store would
/// answer.
pub proof fn law_walk_keeps_truth(c: CacheView, t: Tree, now: u64, w: PathWalk, ino: Inode)
    requires
        c.sound(),
        truthful(c, t),
        walk_true(w, t),
        t.child(w.current.0, w.parts@[w.at as int]@) == Some(ino.0),
    ensures
        w.at + 1 < w.parts@.len() ==> walk_true(
            PathWalk { at: (w.at + 1) as usize, current: ino, ..w },
            t,
        ),
        w.at + 1 == w.parts@.len() ==> t.walk(components(w.path@)) == Some(ino.0) && truthful(
            c.put_path(now, w.path@, ino),
            t,
        ),
{
    let names = components(w.path@);
    let at = w.at as int;
    assert(texts(w.parts@)[at] == w.parts@[at]@);
    assert(names.len() == w.parts@.len());
    assert(names.take(at + 1).drop_last() =~= names.take(at));
    assert(names.take(at + 1).last() == names[at]);
    if at + 1 == names.len() {
        assert(names.take(at + 1) =~= names);
        lemma_store_path(
            c.paths,
            c.config.path_capacity as nat,
            w.path@,
            timed(CachedValue::Child(ino), now, c.config.path_ttl, 0),
            t,
        );
    }
}

/// The root is where a path without names leads, and where a walk begins.
pub proof fn law_root_keeps_truth(c: CacheView, t: Tree, now: u64, path: Seq<char>)
    requires
        c.sound(),
        truthful(c, t),
    ensures
        components(path).len() == 0 ==> truthful(c.put_path(now, path, Inode(t.root)), t),
        t.walk(components(path).take(0)) == Some(t.root),
{
    if components(path).len() == 0 {
        lemma_store_path(
            c.paths,
            c.config.path_capacity as nat,
            path,
            timed(CachedValue::Child(Inode(t.root)), now, c.config.path_ttl, 0),
            t,
        );
    }
}

/// An answer of a truthful client without asking is one that the store could have given, so that
/// all that holds of operations on what the store answers holds of them on what the client
/// answers.
pub proof fn law_client_answers_for_the_store(
    c: CacheView,
    t: Tree,
    now: u64,
    parent: Inode,
    name: Seq<char>,
    child: FsReply,
    ino: Inode,
    attr: FsReply,
    path: Seq<char>,
    end: FsReply,
)
    requires
        truthful(c, t),
    ensures
        (child matches FsReply::Child(r) && known(c, now, parent, name) == Some(result_view(r)))
            ==> fs_answers(t, FsRequestView::Lookup { parent, name }, child, t),
        (attr matches FsReply::Attr(Ok(a)) && c.attr(now, ino, None) == Some(a)) ==> fs_answers(
            t,
            FsRequestView::Getattr(ino),
            attr,
            t,
        ),
        (end matches FsReply::Path(Ok(at)) && c.path(now, path) == Some(at)) ==> fs_answers(
            t,
            FsRequestView::Resolve(path),
            end,
            t,
        ),
{
    law_truthful_cache_answers_as_the_store(c, t, now, parent, name, ino, path);
}

/// What happens to a client.
pub enum ClientEvent {
    /// The store answers a request, and keeps a tree after it. `child` is what a name that is
    /// removed stood for.
    Asked { now: u64, req: FsRequestView, reply: FsReply, after: Tree, child: Inode },
    /// A name is looked up in the caches.
    LookedUp { now: u64, parent: Inode, name: Seq<char> },
    /// The attributes of an inode are looked for in the caches.
    ReadAttr { now: u64, ino: Inode },
    /// A path is looked for in the caches.
    ReadPath { now: u64, path: Seq<char> },
    /// The end of a path that was walked is cached.
    Walked { now: u64, path: Seq<char>, ino: Inode },
    /// Everything is dropped.
    Cleared,
}

/// What an event makes of the caches and the tree.
pub open spec fn event_end(c: CacheView, t: Tree, ev: ClientEvent) -> (CacheView, Tree) {
    match ev {
        ClientEvent::Asked { now, req, reply, after, child } => (
            taken(c, now, req, reply, child),
            after,
        ),
        ClientEvent::LookedUp { now, parent, name } => (looked_up(c, now, parent, name), t),
        ClientEvent::ReadAttr { now, ino } => (c.attr_read(now, ino, None), t),
        ClientEvent::ReadPath { now, path } => (c.path_read(now, path), t),
        ClientEvent::Walked { now, path, ino } => (c.put_path(now, path, ino), t),
        ClientEvent::Cleared => (c.cleared(), t),
    }
}

/// Whether an event can happen: a reply is one of the store on its tree, what is said of a name
/// that is removed is what it stood for, and a path was walked to where it leads.
pub open spec fn can_happen(t: Tree, ev: ClientEvent) -> bool {
    match ev {
        ClientEvent::Asked { now, req, reply, after, child } => {
            &&& is_store_request(req)
            &&& fs_answers(t, req, reply, after)
            &&& req matches FsRequestView::Unlink { parent, name } ==> (t.child(parent.0, name)
                is Some ==> t.child(parent.0, name) == Some(child.0))
            &&& req matches FsRequestView::Rmdir { parent, name } ==> (t.child(parent.0, name)
                is Some ==> t.child(parent.0, name) == Some(child.0))
        },
        ClientEvent::Walked { now, path, ino } => t.walk(components(path)) == Some(ino.0),
        _ => true,
    }
}

/// What events make of the caches and the tree, in order.
pub open spec fn history_end(c: CacheView, t: Tree, events: Seq<ClientEvent>) -> (CacheView, Tree)
    decreases events.len(),
{
    if events.len() == 0 {
        (c, t)
    } else {
        let (c1, t1) = history_end(c, t, events.drop_last());
        event_end(c1, t1, events.last())
    }
}

/// Whether every event can happen when it comes. Nobody but the client changes the tree.
pub open spec fn is_history(c: CacheView, t: Tree, events: Seq<ClientEvent>) -> bool
    decreases events.len(),
{
    events.len() > 0 ==> is_history(c, t, events.drop_last()) && can_happen(
        history_end(c, t, events.drop_last()).1,
        events.last(),
    )
}

/// A table stays within its limit and without repetitions, whether it is read or set.
proof fn lemma_table_stays(
    items: Seq<TableItem>,
    limit: nat,
    key: TableKey,
    entry: CachedEntry<CachedValue>,
    now: u64,
)
    requires
        distinct(items),
        items.len() <= limit,
        0 < limit,
    ensures
        distinct(stored(items, limit, key, entry)),
        stored(items, limit, key, entry).len() <= limit,
        distinct(read(items, key, now, None)),
        read(items, key, now, None).len() <= limit,
        distinct(without(items, key)),
        without(items, key).len() <= limit,
{
    lemma_set(items, limit, key, entry);
    lemma_used(items, key);
    lemma_filter(items, other_key(key));
}

/// An event keeps the caches sound.
proof fn lemma_event_keeps_sound(c: CacheView, t: Tree, ev: ClientEvent)
    requires
        c.sound(),
        truthful(c, t),
        can_happen(t, ev),
    ensures
        event_end(c, t, ev).0.sound(),
{
    let dentry_room = c.config.dentry_capacity as nat;
    let attr_room = c.config.attr_capacity as nat;
    let path_room = c.config.path_capacity as nat;
    let negative_room = c.config.negative_capacity as nat;
    lemma_filter(c.paths, not_below(Seq::empty()));
    match ev {
        ClientEvent::LookedUp { now, parent, name } => {
            let any = timed(CachedValue::Absent, 0, 0, 0);
            lemma_table_stays(c.dentries, dentry_room, dentry_key(parent, name), any, now);
            let key = text_key(absence_key(parent, name));
            lemma_table_stays(c.negatives, negative_room, key, any, now);
            lemma_used(c.negatives, key);
        },
        ClientEvent::ReadAttr { now, ino } => {
            let any = timed(CachedValue::Absent, 0, 0, 0);
            lemma_table_stays(c.attrs, attr_room, attr_key(ino), any, now);
        },
        ClientEvent::ReadPath { now, path } => {
            let any = timed(CachedValue::Absent, 0, 0, 0);
            lemma_table_stays(c.paths, path_room, text_key(path), any, now);
        },
        ClientEvent::Walked { now, path, ino } => {
            let entry = timed(CachedValue::Child(ino), now, c.config.path_ttl, 0);
            lemma_table_stays(c.paths, path_room, text_key(path), entry, now);
        },
        ClientEvent::Cleared => {},
        ClientEvent::Asked { now, req, reply, after, child } => {
            let absent = timed(CachedValue::Absent, now, c.config.negative_ttl, 0);
            match (req, reply) {
                (FsRequestView::Lookup { parent, name }, FsReply::Child(r)) => {
                    let key = text_key(absence_key(parent, name));
                    lemma_table_stays(c.negatives, negative_room, key, absent, now);
                    if let Ok(ino) = r {
                        let entry = timed(CachedValue::Child(ino), now, c.config.dentry_ttl, 0);
                        lemma_table_stays(
                            c.dentries,
                            dentry_room,
                            dentry_key(parent, name),
                            entry,
                            now,
                        );
                    }
                },
                (FsRequestView::Getattr(ino), FsReply::Attr(Ok(attr))) => {
                    let entry = timed(
                        CachedValue::Attr(attr),
                        now,
                        c.config.attr_ttl,
                        attr.version,
                    );
                    lemma_table_stays(c.attrs, attr_room, attr_key(ino), entry, now);
                },
                (FsRequestView::Setattr(ino, _), FsReply::Attr(Ok(attr))) => {
                    let entry = timed(
                        CachedValue::Attr(attr),
                        now,
                        c.config.attr_ttl,
                        attr.version,
                    );
                    lemma_table_stays(c.attrs, attr_room, attr_key(ino), entry, now);
                },
                (FsRequestView::Readdir(ino), FsReply::Entries(Ok(list))) => {
                    lemma_taken_entries(c, t, now, ino, list@);
                },
                (FsRequestView::Create(p), FsReply::Created(Ok(made))) => {
                    let attr = timed(
                        CachedValue::Attr(made.1),
                        now,
                        c.config.attr_ttl,
                        made.1.version,
                    );
                    lemma_table_stays(c.attrs, attr_room, attr_key(made.0), attr, now);
                    let entry = timed(CachedValue::Child(made.0), now, c.config.dentry_ttl, 0);
                    let d = dentry_key(p.parent, p.name);
                    lemma_table_stays(c.dentries, dentry_room, d, entry, now);
                    lemma_filter(stored(c.dentries, dentry_room, d, entry), elsewhere(p.parent));
                    let key = text_key(absence_key(p.parent, p.name));
                    lemma_table_stays(c.negatives, negative_room, key, absent, now);
                },
                (FsRequestView::Unlink { parent, name }, FsReply::Done(Ok(_))) => {
                    lemma_removal_keeps_sound(c, now, parent, name, child);
                },
                (FsRequestView::Rmdir { parent, name }, FsReply::Done(Ok(_))) => {
                    lemma_removal_keeps_sound(c, now, parent, name, child);
                },
                (
                    FsRequestView::Rename { old_parent, old_name, new_parent, new_name },
                    FsReply::Done(Ok(_)),
                ) => {
                    let d = dentry_key(old_parent, old_name);
                    lemma_filter(c.dentries, other_key(d));
                    let d1 = without(c.dentries, d);
                    lemma_filter(d1, elsewhere(old_parent));
                    lemma_filter(d1.filter(elsewhere(old_parent)), elsewhere(new_parent));
                    let k1 = text_key(absence_key(old_parent, old_name));
                    let k2 = text_key(absence_key(new_parent, new_name));
                    lemma_filter(c.negatives, other_key(k1));
                    lemma_filter(without(c.negatives, k1), other_key(k2));
                },
                _ => {},
            }
        },
    }
}

/// A removal keeps the caches sound.
proof fn lemma_removal_keeps_sound(
    c: CacheView,
    now: u64,
    parent: Inode,
    name: Seq<char>,
    child: Inode,
)
    requires
        c.sound(),
    ensures
        unlink_taken(c, now, parent, name, child).sound(),
        rmdir_taken(c, now, parent, name, child).sound(),
{
    lemma_filter(c.paths, not_below(Seq::empty()));
    lemma_filter(c.attrs, other_key(attr_key(child)));
    let d = dentry_key(parent, name);
    lemma_filter(c.dentries, other_key(d));
    let d1 = without(c.dentries, d);
    lemma_filter(d1, elsewhere(parent));
    lemma_filter(d1.filter(elsewhere(parent)), elsewhere(child));
    lemma_set(
        c.negatives,
        c.config.negative_capacity as nat,
        text_key(absence_key(parent, name)),
        timed(CachedValue::Absent, now, c.config.negative_ttl, 0),
    );
}

/// Caching is transparent: whatever a client that starts with empty caches and alone writes has
/// asked, been answered, read and dropped, all that it has cached is true of the tree that the
/// store keeps, so that it answers every name, inode and path as the store would.
pub proof fn law_caching_is_transparent(c: CacheView, t: Tree, events: Seq<ClientEvent>)
    requires
        c.sound(),
        c == c.cleared(),
        is_history(c, t, events),
    ensures
        ({
            let (c2, t2) = history_end(c, t, events);
            c2.sound() && truthful(c2, t2)
        }),
    decreases events.len(),
{
    if events.len() == 0 {
        law_empty_cache_is_truthful(c, t);
    } else {
        law_caching_is_transparent(c, t, events.drop_last());
        let (c1, t1) = history_end(c, t, events.drop_last());
        let ev = events.last();
        lemma_event_keeps_sound(c1, t1, ev);
        match ev {
            ClientEvent::Asked { now, req, reply, after, child } => {
                law_replies_keep_the_cache_truthful(c1, t1, now, req, reply, after, child);
            },
            ClientEvent::LookedUp { now, parent, name } => {
                law_reading_and_dropping_keep_truth(
                    c1,
                    t1,
                    now,
                    parent,
                    parent,
                    name,
                    Seq::empty(),
                );
            },
            ClientEvent::ReadAttr { now, ino } => {
                law_reading_and_dropping_keep_truth(
                    c1,
                    t1,
                    now,
                    ino,
                    ino,
                    Seq::empty(),
                    Seq::empty(),
                );
            },
            ClientEvent::ReadPath { now, path } => {
                law_reading_and_dropping_keep_truth(
                    c1,
                    t1,
                    now,
                    Inode(0),
                    Inode(0),
                    Seq::empty(),
                    path,
                );
            },
            ClientEvent::Walked { now, path, ino } => {
                lemma_store_path(
                    c1.paths,
                    c1.config.path_capacity as nat,
                    path,
                    timed(CachedValue::Child(ino), now, c1.config.path_ttl, 0),
                    t1,
                );
            },
            ClientEvent::Cleared => {
                law_empty_cache_is_truthful(c1, t1);
            },
        }
    }
}

/// Whether a call, from a step on, runs through replies of the store at times and the trees that
/// it keeps after them, and ends with caches, a tree and an answer.
pub open spec fn call_runs(
    c: CacheView,
    t: Tree,
    step: CallStepView,
    trace: Seq<(u64, FsReply, Tree)>,
    end: (CacheView, Tree, AnswerView),
) -> bool
    decreases trace.len(),
{
    match step {
        CallStepView::Answer(a) => trace.len() == 0 && end == (c, t, a),
        CallStepView::Ask(s) => {
            &&& trace.len() > 0
            &&& fs_answers(t, s.asks(), trace[0].1, trace[0].2)
            &&& call_runs(
                went_on(c, trace[0].0, s, trace[0].1).0,
                trace[0].2,
                went_on(c, trace[0].0, s, trace[0].1).1,
                trace.drop_first(),
                end,
            )
        },
    }
}

/// A call of a client with truthful caches is answered as the store would answer it: whatever is
/// told from the caches, and in whatever order the store is asked, the answer and the tree after
/// it are those of the request on the tree before it, and the caches stay truthful.
pub proof fn law_client_serves_as_the_store(
    c: CacheView,
    t: Tree,
    now: u64,
    req: FsRequestView,
    trace: Seq<(u64, FsReply, Tree)>,
    end: (CacheView, Tree, AnswerView),
    reply: FsReply,
)
    requires
        c.sound(),
        truthful(c, t),
        is_store_request(req),
        call_runs(begun(c, now, req).0, t, begun(c, now, req).1, trace, end),
        stands_for(end.2, reply),
    ensures
        fs_answers(t, req, reply, end.1),
        end.0.sound(),
        truthful(end.0, end.1),
{
    reveal_with_fuel(call_runs, 3);
    let c1 = begun(c, now, req).0;
    let nothing = Seq::<char>::empty();
    match req {
        FsRequestView::Lookup { parent, name } => {
            law_reading_and_dropping_keep_truth(c, t, now, parent, parent, name, nothing);
            lemma_event_keeps_sound(c, t, ClientEvent::LookedUp { now, parent, name });
            law_truthful_cache_answers_as_the_store(c, t, now, parent, name, parent, nothing);
        },
        FsRequestView::Getattr(ino) => {
            law_reading_and_dropping_keep_truth(c, t, now, ino, ino, nothing, nothing);
            lemma_event_keeps_sound(c, t, ClientEvent::ReadAttr { now, ino });
            law_truthful_cache_answers_as_the_store(c, t, now, ino, nothing, ino, nothing);
        },
        FsRequestView::Unlink { parent, name } => {
            lemma_removal_begun(c, t, now, parent, name);
        },
        FsRequestView::Rmdir { parent, name } => {
            lemma_removal_begun(c, t, now, parent, name);
        },
        _ => {},
    }
    assert(c1.sound() && truthful(c1, t));
    if let CallStepView::Ask(s) = begun(c, now, req).1 {
        let (at, r, t1) = trace[0];
        let gone = match s.child {
            Some(child) => child,
            None => Inode(0),
        };
        lemma_asked(c1, t, at, s.asks(), r, t1, gone);
        let (c2, step) = went_on(c1, at, s, r);
        if let CallStepView::Ask(s2) = step {
            let (at2, r2, t2) = trace.drop_first()[0];
            lemma_asked(c2, t1, at2, s2.asks(), r2, t2, s2.child->Some_0);
        }
    }
}

/// The look at the name of a removal.
proof fn lemma_removal_begun(c: CacheView, t: Tree, now: u64, parent: Inode, name: Seq<char>)
    requires
        c.sound(),
        truthful(c, t),
    ensures
        looked_up(c, now, parent, name).sound(),
        truthful(looked_up(c, now, parent, name), t),
        match known(c, now, parent, name) {
            Some(Ok(child)) => t.child(parent.0, name) == Some(child.0),
            Some(Err(_)) => t.child(parent.0, name) is None,
            None => true,
        },
{
    let nothing = Seq::<char>::empty();
    law_reading_and_dropping_keep_truth(c, t, now, parent, parent, name, nothing);
    lemma_event_keeps_sound(c, t, ClientEvent::LookedUp { now, parent, name });
    law_truthful_cache_answers_as_the_store(c, t, now, parent, name, parent, nothing);
}

/// A reply of the store that is taken.
proof fn lemma_asked(
    c: CacheView,
    t: Tree,
    now: u64,
    req: FsRequestView,
    reply: FsReply,
    t2: Tree,
    child: Inode,
)
    requires
        c.sound(),
        truthful(c, t),
        can_happen(t, ClientEvent::Asked { now, req, reply, after: t2, child }),
    ensures
        taken(c, now, req, reply, child).sound(),
        truthful(taken(c, now, req, reply, child), t2),
{
    law_replies_keep_the_cache_truthful(c, t, now, req, reply, t2, child);
    lemma_event_keeps_sound(c, t, ClientEvent::Asked { now, req, reply, after: t2, child });
}

} // verus!
