//! What a store does by default with its own operations.

use crate::meta::store::{DirEntry, FileAttr, MetaError};
use crate::meta::types::Inode;
use crate::meta::database::listing::attr_map;
use std::collections::HashMap;
use vstd::prelude::*;

verus! {

/// The attributes of inodes, given the replies for each of them; an inode whose attributes
/// cannot be read is left out.
pub open spec fn batch_of(inos: Seq<Inode>, replies: Seq<Result<FileAttr, MetaError>>) -> Seq<
    (Inode, FileAttr),
>
    decreases inos.len(),
{
    if inos.len() == 0 || replies.len() != inos.len() {
        Seq::empty()
    } else {
        let before = batch_of(inos.drop_last(), replies.drop_last());
        match replies.last() {
            Ok(attr) => before.push((inos.last(), attr)),
            Err(_) => before,
        }
    }
}

/// The attributes of inodes, given the replies for each of them.
pub fn getattr_batch(inos: &Vec<Inode>, replies: &Vec<Result<FileAttr, MetaError>>) -> (r: Vec<
    (Inode, FileAttr),
>)
    requires
        replies.len() == inos.len(),
    ensures
        r@ == batch_of(inos@, replies@),
{
    let mut r: Vec<(Inode, FileAttr)> = Vec::new();
    let mut i: usize = 0;
    while i < inos.len()
        invariant
            i <= inos.len(),
            replies.len() == inos.len(),
            r@ == batch_of(inos@.take(i as int), replies@.take(i as int)),
        decreases inos.len() - i,
    {
        if let Ok(attr) = &replies[i] {
            r.push((inos[i], *attr));
        }
        i = i + 1;
        assert(inos@.take(i as int).drop_last() =~= inos@.take(i - 1));
        assert(replies@.take(i as int).drop_last() =~= replies@.take(i - 1));
    }
    assert(inos@.take(i as int) =~= inos@);
    assert(replies@.take(i as int) =~= replies@);
    r
}

/// The entries with their attributes; what has none is left out.
pub open spec fn entries_with_attrs(entries: Seq<DirEntry>, attrs: Map<i64, FileAttr>) -> Seq<
    (DirEntry, FileAttr),
>
    decreases entries.len(),
{
    if entries.len() == 0 {
        Seq::empty()
    } else {
        let before = entries_with_attrs(entries.drop_last(), attrs);
        if attrs.dom().contains(entries.last().ino) {
            before.push((entries.last(), attrs[entries.last().ino]))
        } else {
            before
        }
    }
}

/// The entries of a directory with their attributes, given the entries and the attributes of
/// their inodes.
pub fn readdirplus(entries: &Vec<DirEntry>, attrs: &Vec<(Inode, FileAttr)>) -> (r: Vec<
    (DirEntry, FileAttr),
>)
    ensures
        r@ == entries_with_attrs(entries@, attr_map(attrs@)),
{
    broadcast use vstd::std_specs::hash::group_hash_axioms;

    let mut map: HashMap<i64, FileAttr> = HashMap::new();
    let mut k: usize = 0;
    while k < attrs.len()
        invariant
            k <= attrs.len(),
            map@ == attr_map(attrs@.take(k as int)),
        decreases attrs.len() - k,
    {
        let _ = map.insert(attrs[k].0.0, attrs[k].1);
        k = k + 1;
        assert(attrs@.take(k as int).drop_last() =~= attrs@.take(k - 1));
    }
    assert(attrs@.take(k as int) =~= attrs@);
    let mut r: Vec<(DirEntry, FileAttr)> = Vec::new();
    let mut i: usize = 0;
    while i < entries.len()
        invariant
            i <= entries.len(),
            map@ == attr_map(attrs@),
            r@ == entries_with_attrs(entries@.take(i as int), attr_map(attrs@)),
        decreases entries.len() - i,
    {
        let e = &entries[i];
        if let Some(attr) = map.get(&e.ino) {
            r.push((DirEntry { name: e.name.clone(), ino: e.ino, kind: e.kind }, *attr));
        }
        i = i + 1;
        assert(entries@.take(i as int).drop_last() =~= entries@.take(i - 1));
    }
    assert(entries@.take(i as int) =~= entries@);
    r
}

} // verus!
