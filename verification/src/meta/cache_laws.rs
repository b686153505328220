//! How the caches of a client are kept apart.

use crate::meta::cache::{text_key, timed, CacheView, CachedValue};
use crate::meta::lru_table::lemma_set;
use crate::meta::store::FileAttr;
use crate::meta::types::Inode;
use vstd::prelude::*;

verus! {

/// To cache a path, or that something does not exist, changes no other such answer but to a miss,
/// and not even that while there is room.
pub proof fn law_caching_texts_spoils_nothing(
    c: CacheView,
    then: u64,
    now: u64,
    text: Seq<char>,
    ino: Inode,
    other: Seq<char>,
)
    requires
        c.sound(),
        c.config.in_time(then),
        other != text,
    ensures
        c.put_path(then, text, ino).path(now, other) == c.path(now, other) || (c.put_path(
            then,
            text,
            ino,
        ).path(now, other) is None && c.paths.len() == c.config.path_capacity),
        c.put_negative(then, text).negative(now, other) == c.negative(now, other) || (
        !c.put_negative(then, text).negative(now, other) && c.negatives.len()
            == c.config.negative_capacity),
{
    lemma_set(
        c.paths,
        c.config.path_capacity as nat,
        text_key(text),
        timed(CachedValue::Child(ino), then, c.config.path_ttl, 0),
    );
    lemma_set(
        c.negatives,
        c.config.negative_capacity as nat,
        text_key(text),
        timed(CachedValue::Absent, then, c.config.negative_ttl, 0),
    );
    assert(text_key(other) != text_key(text));
}

/// The caches whose attributes may differ.
pub open spec fn same_but_attrs(c: CacheView, d: CacheView) -> bool {
    c.config == d.config && c.dentries == d.dentries && c.paths == d.paths && c.negatives
        == d.negatives
}

/// The caches whose names may differ.
pub open spec fn same_but_dentries(c: CacheView, d: CacheView) -> bool {
    c.config == d.config && c.attrs == d.attrs && c.paths == d.paths && c.negatives == d.negatives
}

/// The caches whose paths may differ.
pub open spec fn same_but_paths(c: CacheView, d: CacheView) -> bool {
    c.config == d.config && c.attrs == d.attrs && c.dentries == d.dentries && c.negatives
        == d.negatives
}

/// The caches whose notes of what does not exist may differ.
pub open spec fn same_but_negatives(c: CacheView, d: CacheView) -> bool {
    c.config == d.config && c.attrs == d.attrs && c.dentries == d.dentries && c.paths == d.paths
}

/// What is done with one of the caches leaves the others as they are; to clear empties all four.
pub proof fn law_caches_are_kept_apart(
    c: CacheView,
    now: u64,
    ino: Inode,
    inos: Seq<Inode>,
    attr: FileAttr,
    version: Option<u64>,
    text: Seq<char>,
    child: Inode,
)
    ensures
        same_but_attrs(c, c.attr_read(now, ino, version)),
        same_but_attrs(c, c.put_attr(now, ino, attr)),
        same_but_attrs(c, c.without_attr(ino)),
        same_but_attrs(c, c.without_attrs(inos)),
        same_but_dentries(c, c.dentry_read(now, ino, text)),
        same_but_dentries(c, c.put_dentry(now, ino, text, child)),
        same_but_dentries(c, c.without_dentry(ino, text)),
        same_but_dentries(c, c.without_dir(ino)),
        same_but_paths(c, c.path_read(now, text)),
        same_but_paths(c, c.put_path(now, text, ino)),
        same_but_paths(c, c.without_path(text)),
        same_but_paths(c, c.without_path_prefix(text)),
        same_but_negatives(c, c.negative_read(now, text)),
        same_but_negatives(c, c.put_negative(now, text)),
        same_but_negatives(c, c.without_negative(text)),
        c.cleared().config == c.config,
        c.cleared().attr(now, ino, version) is None,
        c.cleared().dentry(now, ino, text) is None,
        c.cleared().path(now, text) is None,
        !c.cleared().negative(now, text),
    decreases inos.len(),
{
    if inos.len() > 0 {
        law_caches_are_kept_apart(c, now, ino, inos.drop_last(), attr, version, text, child);
    }
}

} // verus!
