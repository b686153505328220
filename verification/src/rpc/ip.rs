//! Which texts are IP addresses.

use crate::text::{
    chars_of, dec_nat, digit_char, digit_of, is_digit, join, law_join_undoes_split,
    law_split_undoes_join, lemma_dec_nat_reads_back, lemma_split_concat, lemma_split_first,
    lemma_split_none, lemma_split_not_empty, magnitude, occurs_at, parse_u64, pattern_at, split,
    split_text, texts, NumberError,
};
use vstd::prelude::*;
use vstd::string::*;

verus! {

/// Whether a text is one of the four numbers of an IPv4 address: up to three
/// digits, at most 255, without leading zeros.
pub open spec fn is_octet(t: Seq<char>) -> bool {
    &&& 1 <= t.len() <= 3
    &&& t.len() > 1 ==> t[0] != '0'
    &&& magnitude(t, 255, NumberError::TooLarge) is Ok
}

/// Whether a text is an IPv4 address: four numbers with dots between them.
pub open spec fn is_ipv4(s: Seq<char>) -> bool {
    let parts = split(s, '.');
    parts.len() == 4 && forall|i: int| 0 <= i < 4 ==> is_octet(#[trigger] parts[i])
}

/// Whether a character is a hexadecimal digit.
pub open spec fn is_hex(c: char) -> bool {
    ('0' <= c && c <= '9') || ('a' <= c && c <= 'f') || ('A' <= c && c <= 'F')
}

/// Whether a text is a group of an IPv6 address: up to four hexadecimal digits.
pub open spec fn is_group(t: Seq<char>) -> bool {
    1 <= t.len() <= 4 && forall|i: int| 0 <= i < t.len() ==> is_hex(#[trigger] t[i])
}

/// How many groups a text stands for, if it is groups with colons between them.
/// The last may be an IPv4 address where that is allowed, which stands for two.
pub open spec fn group_count(s: Seq<char>, v4_allowed: bool) -> Option<int> {
    let parts = split(s, ':');
    if s.len() == 0 {
        Some(0)
    } else if !(forall|i: int| 0 <= i < parts.len() - 1 ==> is_group(#[trigger] parts[i])) {
        None
    } else if is_group(parts.last()) {
        Some(parts.len() as int)
    } else if v4_allowed && is_ipv4(parts.last()) {
        Some(parts.len() as int + 1)
    } else {
        None
    }
}

/// Whether a text is an IPv6 address with two colons at `at` that stand for at
/// least one group of zeros.
pub open spec fn compressed_at(s: Seq<char>, at: int) -> bool {
    &&& occurs_at(s, "::"@, at)
    &&& group_count(s.take(at), false) matches Some(head) && group_count(
        s.skip(at + 2),
        true,
    ) matches Some(rest) && head + rest <= 7
}

/// Whether a text is an IPv6 address.
pub open spec fn is_ipv6(s: Seq<char>) -> bool {
    group_count(s, true) == Some(8int) || exists|at: int| #[trigger] compressed_at(s, at)
}

/// Whether a text is an IP address.
pub open spec fn is_ip(s: Seq<char>) -> bool {
    is_ipv4(s) || is_ipv6(s)
}

/// Whether a text is one of the four numbers of an IPv4 address.
fn octet(t: &String) -> (r: bool)
    ensures
        r == is_octet(t@),
{
    let chars = chars_of(t.as_str());
    if chars.len() < 1 || chars.len() > 3 {
        return false;
    }
    if chars.len() > 1 && chars[0] == '0' {
        return false;
    }
    if chars[0] == '+' {
        proof {
            crate::text::lemma_magnitude_bad_char(t@, 0, 255, NumberError::TooLarge);
        }
        return false;
    }
    if chars.len() == 1 && chars[0] == '-' {
        proof {
            crate::text::lemma_magnitude_bad_char(t@, 0, 255, NumberError::TooLarge);
        }
        return false;
    }
    match parse_u64(t.as_str(), 255) {
        Ok(_) => true,
        Err(_) => false,
    }
}

/// Whether a text is an IPv4 address.
fn ipv4(s: &str) -> (r: bool)
    ensures
        r == is_ipv4(s@),
{
    let parts = split_text(s, '.');
    proof {
        assert(texts(parts@).len() == parts@.len());
    }
    if parts.len() != 4 {
        return false;
    }
    let mut i: usize = 0;
    while i < 4
        invariant
            i <= 4,
            parts.len() == 4,
            texts(parts@) == split(s@, '.'),
            forall|j: int| 0 <= j < i ==> is_octet(#[trigger] split(s@, '.')[j]),
        decreases 4 - i,
    {
        assert(texts(parts@)[i as int] == parts@[i as int]@);
        if !octet(&parts[i]) {
            return false;
        }
        i = i + 1;
    }
    true
}

/// Whether a text is a group of an IPv6 address.
fn group(t: &String) -> (r: bool)
    ensures
        r == is_group(t@),
{
    let chars = chars_of(t.as_str());
    if chars.len() < 1 || chars.len() > 4 {
        return false;
    }
    let mut i: usize = 0;
    while i < chars.len()
        invariant
            i <= chars.len(),
            chars@ == t@,
            forall|j: int| 0 <= j < i ==> is_hex(#[trigger] t@[j]),
        decreases chars.len() - i,
    {
        let c = chars[i];
        let hex = (c >= '0' && c <= '9') || (c >= 'a' && c <= 'f') || (c >= 'A' && c <= 'F');
        if !hex {
            assert(!is_hex(t@[i as int]));
            return false;
        }
        i = i + 1;
    }
    true
}

/// How many groups a text stands for.
fn groups(s: &str, v4_allowed: bool) -> (r: Option<usize>)
    ensures
        match r {
            Some(n) => group_count(s@, v4_allowed) == Some(n as int),
            None => group_count(s@, v4_allowed) is None || group_count(s@, v4_allowed)->Some_0 > 8,
        },
{
    if s.is_empty() {
        return Some(0);
    }
    let parts = split_text(s, ':');
    let n = parts.len();
    proof {
        assert(texts(parts@).len() == n);
    }
    if n > 8 {
        return None;
    }
    let mut i: usize = 0;
    while i < n - 1
        invariant
            i <= n - 1,
            0 < n <= 8,
            n == parts.len(),
            s@.len() > 0,
            texts(parts@) == split(s@, ':'),
            forall|j: int| 0 <= j < i ==> is_group(#[trigger] split(s@, ':')[j]),
        decreases n - i,
    {
        assert(texts(parts@)[i as int] == parts@[i as int]@);
        if !group(&parts[i]) {
            return None;
        }
        i = i + 1;
    }
    assert(texts(parts@).last() == parts@[n - 1]@);
    if group(&parts[n - 1]) {
        Some(n)
    } else if v4_allowed && ipv4(parts[n - 1].as_str()) {
        Some(n + 1)
    } else {
        None
    }
}

/// Whether a text is an IPv6 address.
fn ipv6(s: &str) -> (r: bool)
    ensures
        r == is_ipv6(s@),
{
    match groups(s, true) {
        Some(n) => {
            if n == 8 {
                return true;
            }
        },
        None => {},
    }
    let chars = chars_of(s);
    let pattern = chars_of("::");
    proof {
        reveal_strlit("::");
    }
    let mut at: usize = 0;
    while at < chars.len()
        invariant
            at <= chars.len(),
            chars@ == s@,
            pattern@ == "::"@,
            "::"@.len() == 2,
            group_count(s@, true) != Some(8int),
            forall|j: int| 0 <= j < at ==> !#[trigger] compressed_at(s@, j),
        decreases chars.len() - at,
    {
        if pattern_at(&chars, &pattern, at) {
            let head = s.substring_char(0, at);
            let rest = s.substring_char(at + 2, chars.len());
            assert(head@ =~= s@.take(at as int));
            assert(rest@ =~= s@.skip(at + 2));
            match (groups(head, false), groups(rest, true)) {
                (Some(h), Some(t)) => {
                    if h <= 7 && t <= 7 - h {
                        assert(compressed_at(s@, at as int));
                        return true;
                    }
                },
                _ => {},
            }
        }
        at = at + 1;
    }
    assert forall|j: int| !#[trigger] compressed_at(s@, j) by {
        if compressed_at(s@, j) {
            assert(0 <= j < s@.len());
        }
    }
    false
}

/// Whether a text is an IP address.
pub fn is_ip_address(s: &str) -> (r: bool)
    ensures
        r == is_ip(s@),
{
    ipv4(s) || ipv6(s)
}

/// Four numbers with dots between them.
pub open spec fn dotted(a: u8, b: u8, c: u8, d: u8) -> Seq<char> {
    dec_nat(a as nat) + seq!['.'] + (dec_nat(b as nat) + seq!['.'] + (dec_nat(c as nat) + seq!['.']
        + dec_nat(d as nat)))
}

/// A text of digits without leading zeros is the decimal form of the number it reads as.
proof fn lemma_canonical(t: Seq<char>, max: nat, over: NumberError)
    requires
        t.len() > 0,
        t.len() > 1 ==> t[0] != '0',
        magnitude(t, max, over) is Ok,
    ensures
        dec_nat(magnitude(t, max, over)->Ok_0) == t,
    decreases t.len(),
{
    let v = magnitude(t, max, over)->Ok_0;
    let u = t.drop_last();
    let c = t.last();
    assert(magnitude(u, max, over) is Ok);
    let w = magnitude(u, max, over)->Ok_0;
    assert(is_digit(c));
    assert(digit_char(digit_of(c)) == c);
    if t.len() == 1 {
        assert(u.len() == 0);
        assert(w == 0);
        assert(dec_nat(v) =~= t);
    } else {
        lemma_canonical(u, max, over);
        if w == 0 {
            assert(dec_nat(0)[0] == '0');
            assert(u[0] == t[0]);
        }
        assert(v == w * 10 + digit_of(c));
        assert(v / 10 == w && v % 10 == digit_of(c));
        assert(dec_nat(v) =~= u.push(c));
        assert(t =~= u.push(c));
    }
}

/// The decimal form of a number other than zero does not begin with a zero.
proof fn lemma_no_leading_zero(n: nat)
    requires
        n > 0,
    ensures
        dec_nat(n)[0] != '0',
        dec_nat(n).len() > 0,
    decreases n,
{
    if n >= 10 {
        lemma_no_leading_zero(n / 10);
    }
}

/// The decimal form of a byte is one of the numbers of an IPv4 address, and holds no dot.
proof fn lemma_byte_is_octet(n: u8)
    ensures
        is_octet(dec_nat(n as nat)),
        forall|i: int| 0 <= i < dec_nat(n as nat).len() ==> dec_nat(n as nat)[i] != '.',
{
    lemma_dec_nat_reads_back(n as nat, 255, NumberError::TooLarge);
    if n > 0 {
        lemma_no_leading_zero(n as nat);
    }
    reveal_with_fuel(dec_nat, 4);
    assert(dec_nat(n as nat).len() <= 3);
    assert forall|i: int| 0 <= i < dec_nat(n as nat).len() implies dec_nat(n as nat)[i] != '.' by {
        assert(is_digit(dec_nat(n as nat)[i]));
    }
}

/// An IPv4 address is four bytes in decimal form with dots between them, and every such text is
/// one.
pub proof fn law_ipv4_is_four_bytes(s: Seq<char>)
    ensures
        is_ipv4(s) <==> exists|a: u8, b: u8, c: u8, d: u8| s == #[trigger] dotted(a, b, c, d),
{
    if exists|a: u8, b: u8, c: u8, d: u8| s == #[trigger] dotted(a, b, c, d) {
        let (a, b, c, d) = choose|a: u8, b: u8, c: u8, d: u8| s == #[trigger] dotted(a, b, c, d);
        lemma_byte_is_octet(a);
        lemma_byte_is_octet(b);
        lemma_byte_is_octet(c);
        lemma_byte_is_octet(d);
        let (da, db) = (dec_nat(a as nat), dec_nat(b as nat));
        let (dc, dd) = (dec_nat(c as nat), dec_nat(d as nat));
        lemma_split_first(da, '.', db + seq!['.'] + (dc + seq!['.'] + dd));
        lemma_split_first(db, '.', dc + seq!['.'] + dd);
        lemma_split_first(dc, '.', dd);
        lemma_split_none(dd, '.');
        assert(split(s, '.') =~= seq![da, db, dc, dd]);
    }
    if is_ipv4(s) {
        let p = split(s, '.');
        law_join_undoes_split(s, '.');
        assert(is_octet(p[0]) && is_octet(p[1]) && is_octet(p[2]) && is_octet(p[3]));
        let a = lemma_octet_is_byte(p[0]);
        let b = lemma_octet_is_byte(p[1]);
        let c = lemma_octet_is_byte(p[2]);
        let d = lemma_octet_is_byte(p[3]);
        reveal_with_fuel(join, 5);
        assert(p.drop_last().drop_last().drop_last()[0] == p[0]);
        assert(p.drop_last().drop_last()[1] == p[1]);
        assert(p.drop_last()[2] == p[2]);
        assert(s =~= dotted(a, b, c, d));
    }
}

/// One of the numbers of an IPv4 address is the decimal form of a byte.
proof fn lemma_octet_is_byte(t: Seq<char>) -> (r: u8)
    requires
        is_octet(t),
    ensures
        t == dec_nat(r as nat),
{
    lemma_canonical(t, 255, NumberError::TooLarge);
    let v = magnitude(t, 255, NumberError::TooLarge)->Ok_0;
    assert(v <= 255) by {
        assert(t.len() > 0);
    }
    v as u8
}

/// Whether a text is one to four hexadecimal digits.
pub open spec fn is_hex_group(t: Seq<char>) -> bool {
    1 <= t.len() <= 4 && forall|i: int|
        0 <= i < t.len() ==> ('0' <= (#[trigger] t[i]) && t[i] <= '9') || ('a' <= t[i] && t[i]
            <= 'f') || ('A' <= t[i] && t[i] <= 'F')
}

/// Whether all texts of a list are one to four hexadecimal digits.
pub open spec fn are_hex_groups(parts: Seq<Seq<char>>) -> bool {
    forall|i: int| 0 <= i < parts.len() ==> is_hex_group(#[trigger] parts[i])
}

/// Groups with colons between them are split into these groups, and count as many as they are.
proof fn lemma_groups(parts: Seq<Seq<char>>, v4_allowed: bool)
    requires
        are_hex_groups(parts),
    ensures
        parts.len() > 0 ==> split(join(parts, ':'), ':') == parts,
        parts.len() == 0 ==> join(parts, ':') == Seq::<char>::empty(),
        group_count(join(parts, ':'), v4_allowed) == Some(parts.len() as int),
{
    if parts.len() > 0 {
        assert forall|i: int, j: int|
            0 <= i < parts.len() && 0 <= j < parts[i].len() implies #[trigger] parts[i][j]
            != ':' by {
            assert(is_hex_group(parts[i]));
        }
        law_split_undoes_join(parts, ':');
        assert forall|i: int| 0 <= i < parts.len() implies is_group(#[trigger] parts[i]) by {
            assert(is_hex_group(parts[i]));
            assert forall|j: int| 0 <= j < parts[i].len() implies is_hex(
                #[trigger] parts[i][j],
            ) by {}
        }
        assert(is_group(parts[parts.len() - 1]));
        let s = join(parts, ':');
        if s.len() == 0 {
            assert(split(s, ':') =~= seq![Seq::empty()]);
            assert(is_hex_group(parts[0]));
        }
    }
}

/// Two colons make an empty part in between.
proof fn lemma_two_colons(s: Seq<char>, at: int)
    requires
        occurs_at(s, "::"@, at),
    ensures
        split(s, ':') == split(s.take(at), ':') + seq![Seq::<char>::empty()] + split(
            s.skip(at + 2),
            ':',
        ),
{
    reveal_strlit("::");
    let a = s.take(at);
    let b = s.skip(at + 2);
    let nothing = Seq::<char>::empty();
    assert(s.subrange(at, at + 2)[0] == ':' && s.subrange(at, at + 2)[1] == ':');
    assert(s =~= a.push(':') + (nothing.push(':') + b));
    lemma_split_concat(a, ':', nothing.push(':') + b);
    lemma_split_concat(nothing, ':', b);
    assert(split(nothing, ':') =~= seq![nothing]);
    assert(split(s, ':') =~= split(a, ':') + seq![nothing] + split(b, ':'));
}

/// Groups with colons between them are an IPv6 address exactly where they are eight.
pub proof fn law_ipv6_has_eight_groups(parts: Seq<Seq<char>>)
    requires
        parts.len() > 0,
        are_hex_groups(parts),
    ensures
        is_ipv6(join(parts, ':')) <==> parts.len() == 8,
{
    let s = join(parts, ':');
    lemma_groups(parts, true);
    assert forall|at: int| !#[trigger] compressed_at(s, at) by {
        if compressed_at(s, at) {
            lemma_two_colons(s, at);
            let n = split(s.take(at), ':').len() as int;
            lemma_split_not_empty(s.skip(at + 2), ':');
            assert(parts[n] =~= Seq::<char>::empty());
            assert(is_hex_group(parts[n]));
        }
    }
}

/// Two colons in the place of groups make an IPv6 address exactly where they stand for one group
/// at least.
pub proof fn law_two_colons_stand_for_groups(head: Seq<Seq<char>>, rest: Seq<Seq<char>>)
    requires
        are_hex_groups(head),
        are_hex_groups(rest),
    ensures
        is_ipv6(join(head, ':') + "::"@ + join(rest, ':')) <==> head.len() + rest.len() <= 7,
{
    reveal_strlit("::");
    let a = join(head, ':');
    let b = join(rest, ':');
    let s = a + "::"@ + b;
    let at = a.len() as int;
    lemma_groups(head, false);
    lemma_groups(rest, true);
    assert(s.subrange(at, at + 2) =~= "::"@);
    assert(s.take(at) =~= a);
    assert(s.skip(at + 2) =~= b);
    lemma_two_colons(s, at);
    lemma_split_not_empty(a, ':');
    lemma_split_not_empty(b, ':');
    let parts = split(s, ':');
    let n = split(a, ':').len() as int;
    assert(parts[n] =~= Seq::<char>::empty());
    assert(!is_group(parts[n]));
    assert(n < parts.len() - 1);
    assert(group_count(s, true) is None);
    if head.len() + rest.len() <= 7 {
        assert(compressed_at(s, at));
    }
    if is_ipv6(s) {
        let other = choose|other: int| #[trigger] compressed_at(s, other);
        lemma_one_place(s, head, rest, at, other);
    }
}

/// Two colons stand for groups in one place only.
proof fn lemma_one_place(
    s: Seq<char>,
    head: Seq<Seq<char>>,
    rest: Seq<Seq<char>>,
    at: int,
    other: int,
)
    requires
        are_hex_groups(head),
        are_hex_groups(rest),
        occurs_at(s, "::"@, at),
        s.take(at) == join(head, ':'),
        s.skip(at + 2) == join(rest, ':'),
        compressed_at(s, other),
    ensures
        head.len() + rest.len() <= 7,
{
    let a = s.take(at);
    let b = s.skip(at + 2);
    let x = s.take(other);
    let y = s.skip(other + 2);
    let nothing = Seq::<char>::empty();
    lemma_groups(head, false);
    lemma_groups(rest, true);
    lemma_two_colons(s, at);
    lemma_two_colons(s, other);
    lemma_split_not_empty(a, ':');
    lemma_split_not_empty(x, ':');
    assert(split(nothing, ':') =~= seq![nothing]);
    let p = split(a, ':');
    let q = split(x, ':');
    let parts = split(s, ':');
    assert(parts[p.len() as int] == nothing);
    assert(parts[q.len() as int] == nothing);
    assert forall|i: int| 0 <= i < p.len() implies parts[i] == #[trigger] p[i] by {}
    assert forall|i: int| 0 <= i < q.len() implies parts[i] == #[trigger] q[i] by {}
    if x.len() > 0 {
        assert forall|i: int| 0 <= i < q.len() implies (#[trigger] q[i]).len() > 0 by {
            if i < q.len() - 1 {
                assert(is_group(q[i]));
            } else {
                assert(is_group(q.last()));
            }
        }
    } else {
        assert(x =~= nothing);
    }
    if head.len() > 0 {
        assert forall|i: int| 0 <= i < p.len() implies (#[trigger] p[i]).len() > 0 by {
            assert(is_hex_group(head[i]));
        }
    } else {
        assert(a =~= nothing);
    }
    assert(p.len() == q.len()) by {
        if head.len() > 0 && x.len() > 0 {
            if p.len() < q.len() {
                assert(q[p.len() as int].len() > 0);
            } else if q.len() < p.len() {
                assert(p[q.len() as int].len() > 0);
            }
        } else if head.len() > 0 {
            assert(q[0] == nothing);
            assert(p[0].len() > 0);
        } else if x.len() > 0 {
            assert(p[0] == nothing);
            assert(q[0].len() > 0);
        }
    }
    assert(split(b, ':') =~= split(y, ':')) by {
        let m = p.len() as int + 1;
        assert(parts.skip(m) =~= split(b, ':'));
        assert(parts.skip(m) =~= split(y, ':'));
    }
    law_join_undoes_split(b, ':');
    law_join_undoes_split(y, ':');
    assert(p =~= q);
    law_join_undoes_split(a, ':');
    law_join_undoes_split(x, ':');
}

} // verus!
