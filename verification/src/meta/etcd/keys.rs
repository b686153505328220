//! Keys of the key-value store.
//!
//! * `f:{parent}:{name}`: what a name in a directory stands for;
//! * `r:{inode}`: the metadata of an inode;
//! * `c:{inode}`: the names in a directory.

use crate::text::{dec, dec_nat, i64_text, law_decimal_is_injective, NumberError};
use vstd::prelude::*;
use vstd::string::*;

verus! {

/// The text of the key of a name in a directory.
pub open spec fn forward_key(parent: int, name: Seq<char>) -> Seq<char> {
    "f:"@ + dec(parent) + ":"@ + name
}

/// The text of the key of the metadata of an inode.
pub open spec fn reverse_key(ino: int) -> Seq<char> {
    "r:"@ + dec(ino)
}

/// The text of the key of the names in a directory.
pub open spec fn children_key(ino: int) -> Seq<char> {
    "c:"@ + dec(ino)
}

/// The key of a name in a directory.
pub fn etcd_forward_key(parent_inode: i64, name: &str) -> (r: String)
    ensures
        r@ == forward_key(parent_inode as int, name@),
        r@ == "f:"@ + dec(parent_inode as int) + ":"@ + name@,
{
    let mut r = String::from_str("f:");
    r.append(i64_text(parent_inode).as_str());
    r.append(":");
    r.append(name);
    r
}

/// The key of the metadata of an inode.
pub fn etcd_reverse_key(ino: i64) -> (r: String)
    ensures
        r@ == reverse_key(ino as int),
        r@ == "r:"@ + dec(ino as int),
{
    let mut r = String::from_str("r:");
    r.append(i64_text(ino).as_str());
    r
}

/// The key of the names in a directory.
pub fn etcd_children_key(inode: i64) -> (r: String)
    ensures
        r@ == children_key(inode as int),
        r@ == "c:"@ + dec(inode as int),
{
    let mut r = String::from_str("c:");
    r.append(i64_text(inode).as_str());
    r
}

/// A decimal form holds digits and minus signs only.
pub proof fn lemma_dec_has_no_colon(i: int, at: int)
    requires
        0 <= at < dec(i).len(),
    ensures
        dec(i)[at] != ':',
{
    if i < 0 {
        crate::text::lemma_dec_nat_reads_back((-i) as nat, (-i) as nat, NumberError::TooLarge);
        assert(dec(i)[at] == '-' || dec(i)[at] == dec_nat((-i) as nat)[at - 1]);
    } else {
        crate::text::lemma_dec_nat_reads_back(i as nat, i as nat, NumberError::TooLarge);
    }
}

/// Two names in directories have the same key only if they are the same name in
/// the same directory.
pub proof fn law_forward_keys_are_distinct(p: i64, n: Seq<char>, q: i64, m: Seq<char>)
    requires
        forward_key(p as int, n) == forward_key(q as int, m),
    ensures
        p == q,
        n == m,
{
    reveal_strlit("f:");
    reveal_strlit(":");
    let a = dec(p as int);
    let b = dec(q as int);
    let k = forward_key(p as int, n);
    let l = forward_key(q as int, m);
    assert(k[2 + a.len() as int] == ':');
    assert(l[2 + b.len() as int] == ':');
    if a.len() < b.len() {
        lemma_dec_has_no_colon(q as int, a.len() as int);
        assert(l[2 + a.len() as int] == b[a.len() as int]);
    } else if b.len() < a.len() {
        lemma_dec_has_no_colon(p as int, b.len() as int);
        assert(k[2 + b.len() as int] == a[b.len() as int]);
    }
    assert(a =~= b) by {
        assert forall|i: int| 0 <= i < a.len() implies a[i] == b[i] by {
            assert(k[2 + i] == a[i]);
            assert(l[2 + i] == b[i]);
        }
    }
    law_decimal_is_injective(p, q);
    assert(n =~= m) by {
        assert(k.len() == 3 + a.len() + n.len());
        assert(l.len() == 3 + b.len() + m.len());
        assert forall|i: int| 0 <= i < n.len() implies n[i] == m[i] by {
            assert(k[3 + a.len() + i] == n[i]);
            assert(l[3 + a.len() + i] == m[i]);
        }
    }
}

/// Two inodes have the same key, of their metadata or of their names, only if
/// they are the same inode; keys of different kinds differ.
pub proof fn law_inode_keys_are_distinct(i: i64, j: i64, n: Seq<char>)
    ensures
        reverse_key(i as int) == reverse_key(j as int) ==> i == j,
        children_key(i as int) == children_key(j as int) ==> i == j,
        reverse_key(i as int) != children_key(j as int),
        forward_key(i as int, n) != reverse_key(j as int),
        forward_key(i as int, n) != children_key(j as int),
{
    reveal_strlit("f:");
    reveal_strlit("r:");
    reveal_strlit("c:");
    reveal_strlit(":");
    assert(reverse_key(i as int)[0] == 'r');
    assert(reverse_key(j as int)[0] == 'r');
    assert(children_key(j as int)[0] == 'c');
    assert(forward_key(i as int, n)[0] == 'f');
    assert(reverse_key(i as int).skip(2) =~= dec(i as int));
    assert(reverse_key(j as int).skip(2) =~= dec(j as int));
    assert(children_key(i as int).skip(2) =~= dec(i as int));
    assert(children_key(j as int).skip(2) =~= dec(j as int));
    if dec(i as int) == dec(j as int) {
        law_decimal_is_injective(i, j);
    }
}

} // verus!
