//! Ranges of keys.

use vstd::prelude::*;

verus! {

/// Which keys a request means besides its own.
#[derive(Debug, Clone, PartialEq, Eq)]
pub enum RangeOption {
    /// Only the key.
    SingleKey,
    /// The keys that begin with the key.
    Prefix,
    /// The keys that are not before the key.
    FromKey,
    /// The keys from the key up to, and without, this one.
    RangeEnd(Vec<u8>),
}

/// Whether a key is before another in the order of their bytes.
pub open spec fn before(a: Seq<u8>, b: Seq<u8>) -> bool
    decreases a.len(),
{
    if b.len() == 0 {
        false
    } else if a.len() == 0 {
        true
    } else if a[0] != b[0] {
        a[0] < b[0]
    } else {
        before(a.drop_first(), b.drop_first())
    }
}

/// Whether a range holds a key. A range without end holds its first key alone; one that ends in
/// the key of a single zero has no upper limit.
pub open spec fn in_range(first: Seq<u8>, end: Seq<u8>, key: Seq<u8>) -> bool {
    if end.len() == 0 {
        key == first
    } else if end == seq![0u8] {
        !before(key, first)
    } else {
        !before(key, first) && before(key, end)
    }
}

/// Whether all bytes are the largest byte.
pub open spec fn all_last(key: Seq<u8>) -> bool {
    forall|i: int| 0 <= i < key.len() ==> key[i] == 0xff
}

/// The end of the range of the keys that begin with a key: the key, cut behind its last byte that
/// can grow, with that byte grown. Where no byte can grow there is no upper limit.
pub open spec fn prefix_end(key: Seq<u8>) -> Seq<u8>
    decreases key.len(),
{
    if key.len() == 0 {
        seq![0u8]
    } else if key.last() < 0xff {
        key.drop_last().push((key.last() + 1) as u8)
    } else {
        prefix_end(key.drop_last())
    }
}

impl RangeOption {
    /// The first key and the end of the range for a key.
    pub open spec fn range(self, key: Seq<u8>) -> (Seq<u8>, Seq<u8>) {
        match self {
            RangeOption::SingleKey => (key, Seq::empty()),
            RangeOption::Prefix => if key.len() == 0 {
                (seq![0u8], seq![0u8])
            } else {
                (key, prefix_end(key))
            },
            RangeOption::FromKey => if key.len() == 0 {
                (seq![0u8], seq![0u8])
            } else {
                (key, seq![0u8])
            },
            RangeOption::RangeEnd(end) => (key, end@),
        }
    }

    /// The end of the range for a key. An empty key becomes the first key where the range needs
    /// one.
    pub fn get_range_end(self, key: &mut Vec<u8>) -> (r: Vec<u8>)
        ensures
            final(key)@ == self.range(old(key)@).0,
            r@ == self.range(old(key)@).1,
    {
        match self {
            RangeOption::SingleKey => Vec::new(),
            RangeOption::Prefix => {
                if key.len() == 0 {
                    key.push(0);
                    assert(key@ =~= seq![0u8]);
                    vec![0u8]
                } else {
                    get_prefix(key)
                }
            },
            RangeOption::FromKey => {
                if key.len() == 0 {
                    key.push(0);
                    assert(key@ =~= seq![0u8]);
                }
                vec![0u8]
            },
            RangeOption::RangeEnd(end) => end,
        }
    }
}

/// The end of the range of the keys that begin with a key.
pub fn get_prefix(key: &Vec<u8>) -> (r: Vec<u8>)
    ensures
        r@ == prefix_end(key@),
{
    let mut n: usize = key.len();
    assert(key@.take(n as int) =~= key@);
    while n > 0
        invariant
            n <= key.len(),
            prefix_end(key@) == prefix_end(key@.take(n as int)),
        decreases n,
    {
        let last: u8 = key[n - 1];
        assert(key@.take(n as int).last() == last);
        assert(key@.take(n as int).drop_last() =~= key@.take(n - 1));
        if last < 0xff {
            let mut end: Vec<u8> = Vec::new();
            let mut i: usize = 0;
            while i < n - 1
                invariant
                    i <= n - 1,
                    n <= key.len(),
                    end@ == key@.take(i as int),
                decreases n - 1 - i,
            {
                end.push(key[i]);
                i = i + 1;
                assert(end@ =~= key@.take(i as int));
            }
            end.push(last + 1);
            return end;
        }
        n = n - 1;
    }
    assert(key@.take(0).len() == 0);
    vec![0u8]
}

/// What the end of a prefix range is, seen from the first byte.
proof fn lemma_prefix_end_front(key: Seq<u8>)
    requires
        key.len() > 0,
    ensures
        all_last(key) ==> prefix_end(key) == seq![0u8],
        !all_last(key) && all_last(key.drop_first()) ==> key[0] < 0xff && prefix_end(key) == seq![
            (key[0] + 1) as u8,
        ],
        !all_last(key.drop_first()) ==> prefix_end(key) == seq![key[0]] + prefix_end(
            key.drop_first(),
        ),
    decreases key.len(),
{
    let rest = key.drop_first();
    if key.len() == 1 {
        reveal_with_fuel(prefix_end, 2);
        assert(key.drop_last() =~= Seq::<u8>::empty());
        if !all_last(key) {
            assert(prefix_end(key) =~= seq![(key[0] + 1) as u8]);
        }
    } else {
        let init = key.drop_last();
        assert(init.drop_first() =~= rest.drop_last());
        assert(rest.last() == key.last());
        if key.last() < 0xff {
            assert(rest[rest.len() - 1] < 0xff);
            assert(!all_last(rest));
            assert(prefix_end(key) =~= seq![key[0]] + prefix_end(rest));
        } else {
            lemma_prefix_end_front(init);
            assert(all_last(key) ==> all_last(init));
            assert(all_last(rest) == all_last(rest.drop_last())) by {
                assert forall|i: int|
                    all_last(rest.drop_last()) && 0 <= i < rest.len() implies rest[i] == 0xff by {
                    if i < rest.len() - 1 {
                        assert(rest.drop_last()[i] == rest[i]);
                    }
                }
                assert forall|i: int|
                    all_last(rest) && 0 <= i < rest.len() - 1 implies rest.drop_last()[i]
                    == 0xff by {
                    assert(rest.drop_last()[i] == rest[i]);
                }
            }
            if all_last(init) && !all_last(key) {
                assert forall|i: int| 0 <= i < key.len() implies key[i] == 0xff by {
                    if i < key.len() - 1 {
                        assert(init[i] == key[i]);
                    }
                }
            }
        }
    }
}

/// Keys that are both cut at the first byte.
proof fn lemma_prefix_range(key: Seq<u8>, k: Seq<u8>)
    requires
        key.len() > 0,
    ensures
        key.is_prefix_of(k) == (!before(k, key) && (all_last(key) || before(k, prefix_end(key)))),
    decreases key.len(),
{
    lemma_prefix_end_front(key);
    let rest = key.drop_first();
    if k.len() > 0 {
        let t = k.drop_first();
        assert(key.is_prefix_of(k) == (k[0] == key[0] && rest.is_prefix_of(t))) by {
            if key.is_prefix_of(k) {
                assert(k[0] == key[0]);
                assert(rest =~= t.subrange(0, rest.len() as int)) by {
                    assert forall|i: int| 0 <= i < rest.len() implies rest[i] == t[i] by {
                        assert(key[i + 1] == k.subrange(0, key.len() as int)[i + 1]);
                    }
                }
            }
            if k[0] == key[0] && rest.is_prefix_of(t) {
                assert forall|i: int| 0 <= i < key.len() implies key[i] == k[i] by {
                    if i > 0 {
                        assert(rest[i - 1] == t.subrange(0, rest.len() as int)[i - 1]);
                    }
                }
                assert(key =~= k.subrange(0, key.len() as int));
            }
        }
        if all_last(key) {
            assert(key[0] == 0xff);
            assert(all_last(rest)) by {
                assert forall|i: int| 0 <= i < rest.len() implies rest[i] == 0xff by {
                    assert(key[i + 1] == rest[i]);
                }
            }
        }
        if rest.len() > 0 {
            lemma_prefix_range(rest, t);
            if !all_last(rest) {
                let e = prefix_end(key);
                assert(e.drop_first() =~= prefix_end(rest));
                assert(e[0] == key[0]);
                if all_last(key) {
                    assert forall|i: int| 0 <= i < rest.len() implies rest[i] == 0xff by {
                        assert(key[i + 1] == rest[i]);
                    }
                }
            } else if !all_last(key) {
                let e = prefix_end(key);
                assert(e.drop_first().len() == 0);
                assert(!before(t, e.drop_first()));
            }
        } else {
            assert(all_last(rest));
            assert(!before(t, rest));
            if !all_last(key) {
                let e = prefix_end(key);
                assert(e.drop_first().len() == 0);
                assert(!before(t, e.drop_first()));
            }
            assert(rest =~= t.subrange(0, 0));
        }
    }
}

/// The range of the keys that begin with a key holds these keys and no others.
pub proof fn law_prefix_range_holds_the_prefixed(key: Seq<u8>, k: Seq<u8>)
    requires
        key.len() > 0,
    ensures
        in_range(
            RangeOption::Prefix.range(key).0,
            RangeOption::Prefix.range(key).1,
            k,
        ) == key.is_prefix_of(k),
{
    lemma_prefix_range(key, k);
    lemma_prefix_end_front(key);
    lemma_prefix_end_limits(key);
}

/// The range of the keys that begin with the empty key holds every key but the empty one.
pub proof fn law_empty_prefix_range_holds_every_key(k: Seq<u8>)
    ensures
        in_range(
            RangeOption::Prefix.range(Seq::empty()).0,
            RangeOption::Prefix.range(Seq::empty()).1,
            k,
        ) == (k.len() > 0),
{
    if k.len() > 0 {
        assert(seq![0u8].drop_first().len() == 0);
        assert(!before(k.drop_first(), seq![0u8].drop_first()));
    }
}

/// The end of a prefix range is that of an unlimited one only where no byte can grow.
proof fn lemma_prefix_end_limits(key: Seq<u8>)
    ensures
        prefix_end(key).len() > 0,
        prefix_end(key) == seq![0u8] ==> all_last(key),
    decreases key.len(),
{
    if key.len() > 0 {
        if key.last() < 0xff {
            let e = prefix_end(key);
            assert(e.last() == (key.last() + 1) as u8);
            assert(seq![0u8].last() == 0);
        } else {
            lemma_prefix_end_limits(key.drop_last());
            if all_last(key.drop_last()) {
                assert forall|i: int| 0 <= i < key.len() implies key[i] == 0xff by {
                    if i < key.len() - 1 {
                        assert(key.drop_last()[i] == key[i]);
                    }
                }
            }
        }
    }
}

/// The range of a single key holds that key and no other.
pub proof fn law_single_key_range_holds_the_key(key: Seq<u8>, k: Seq<u8>)
    ensures
        in_range(
            RangeOption::SingleKey.range(key).0,
            RangeOption::SingleKey.range(key).1,
            k,
        ) == (k == key),
{
}

/// The range from a key on holds the keys that are not before it; the one from the empty key on
/// holds every key but the empty one.
pub proof fn law_range_from_a_key_has_no_end(key: Seq<u8>, k: Seq<u8>)
    ensures
        key.len() > 0 ==> in_range(
            RangeOption::FromKey.range(key).0,
            RangeOption::FromKey.range(key).1,
            k,
        ) == !before(k, key),
        key.len() == 0 ==> in_range(
            RangeOption::FromKey.range(key).0,
            RangeOption::FromKey.range(key).1,
            k,
        ) == (k.len() > 0),
{
    if k.len() > 0 {
        assert(seq![0u8].drop_first().len() == 0);
        assert(!before(k.drop_first(), seq![0u8].drop_first()));
    }
}

/// A range that ends in a key holds the keys from the first one up to, and without, that key; the
/// key of a single zero as the end, and no end, have their own meaning.
pub proof fn law_range_ends_before_its_end(key: Seq<u8>, end: Vec<u8>, k: Seq<u8>)
    requires
        end@.len() > 0,
        end@ != seq![0u8],
    ensures
        in_range(
            RangeOption::RangeEnd(end).range(key).0,
            RangeOption::RangeEnd(end).range(key).1,
            k,
        ) == (!before(k, key) && before(k, end@)),
{
}

} // verus!
