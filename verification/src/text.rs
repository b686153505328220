//! Text as sequences of characters: decimal numbers, searching and splitting.

use vstd::prelude::*;
use vstd::string::*;

verus! {

/// The character of a decimal digit.
pub open spec fn digit_char(d: int) -> char {
    ('0' as int + d) as char
}

/// Whether a character is a decimal digit.
pub open spec fn is_digit(c: char) -> bool {
    '0' <= c && c <= '9'
}

/// The number that a decimal digit stands for.
pub open spec fn digit_of(c: char) -> int {
    c as int - '0' as int
}

/// The decimal form of a natural number, without leading zeros.
pub open spec fn dec_nat(n: nat) -> Seq<char>
    decreases n,
{
    if n < 10 {
        seq![digit_char(n as int)]
    } else {
        dec_nat(n / 10).push(digit_char((n % 10) as int))
    }
}

/// The decimal form of an integer, with a minus sign where it is negative.
pub open spec fn dec(i: int) -> Seq<char> {
    if i < 0 {
        seq!['-'] + dec_nat((-i) as nat)
    } else {
        dec_nat(i as nat)
    }
}

/// Why a text is not a number of the wanted kind.
#[derive(Debug, Clone, Copy, PartialEq, Eq, Structural)]
pub enum NumberError {
    /// There is no text at all.
    Empty,
    /// A character is neither a digit nor a leading sign.
    InvalidDigit,
    /// The number is above the largest value.
    TooLarge,
    /// The number is below the smallest value.
    TooSmall,
}

impl NumberError {
    /// The text of the error.
    pub open spec fn text(self) -> Seq<char> {
        match self {
            NumberError::Empty => "cannot parse integer from empty string"@,
            NumberError::InvalidDigit => "invalid digit found in string"@,
            NumberError::TooLarge => "number too large to fit in target type"@,
            NumberError::TooSmall => "number too small to fit in target type"@,
        }
    }

    /// The message for a reader.
    pub fn message(&self) -> (r: String)
        ensures
            r@ == self.text(),
    {
        match self {
            NumberError::Empty => String::from_str("cannot parse integer from empty string"),
            NumberError::InvalidDigit => String::from_str("invalid digit found in string"),
            NumberError::TooLarge => String::from_str("number too large to fit in target type"),
            NumberError::TooSmall => String::from_str("number too small to fit in target type"),
        }
    }
}

/// The magnitude that a run of digits stands for, read from the left up to the
/// first character that is no digit or that takes the number above `max`.
pub open spec fn magnitude(s: Seq<char>, max: nat, over: NumberError) -> Result<nat, NumberError>
    decreases s.len(),
{
    if s.len() == 0 {
        Ok(0nat)
    } else {
        match magnitude(s.drop_last(), max, over) {
            Err(e) => Err(e),
            Ok(v) => if !is_digit(s.last()) {
                Err(NumberError::InvalidDigit)
            } else if v * 10 + digit_of(s.last()) > max {
                Err(over)
            } else {
                Ok((v * 10 + digit_of(s.last())) as nat)
            },
        }
    }
}

/// The number that a text stands for, of an unsigned type with the given
/// largest value: digits, after an optional plus sign.
pub open spec fn parse_unsigned(s: Seq<char>, max: nat) -> Result<nat, NumberError> {
    if s.len() == 0 {
        Err(NumberError::Empty)
    } else if s.len() == 1 && (s[0] == '+' || s[0] == '-') {
        Err(NumberError::InvalidDigit)
    } else if s[0] == '+' {
        magnitude(s.skip(1), max, NumberError::TooLarge)
    } else {
        magnitude(s, max, NumberError::TooLarge)
    }
}

/// The number that a text stands for, of a 64-bit signed type: digits, after an
/// optional sign.
pub open spec fn parse_signed(s: Seq<char>) -> Result<int, NumberError> {
    if s.len() == 0 {
        Err(NumberError::Empty)
    } else if s.len() == 1 && (s[0] == '+' || s[0] == '-') {
        Err(NumberError::InvalidDigit)
    } else if s[0] == '-' {
        match magnitude(s.skip(1), 0x8000_0000_0000_0000nat, NumberError::TooSmall) {
            Ok(v) => Ok(-(v as int)),
            Err(e) => Err(e),
        }
    } else {
        let digits = if s[0] == '+' { s.skip(1) } else { s };
        match magnitude(digits, 0x7fff_ffff_ffff_ffffnat, NumberError::TooLarge) {
            Ok(v) => Ok(v as int),
            Err(e) => Err(e),
        }
    }
}

/// The characters of a text, one by one.
pub fn chars_of(s: &str) -> (r: Vec<char>)
    ensures
        r@ == s@,
{
    broadcast use vstd::string::axiom_spec_iter;
    let mut out: Vec<char> = Vec::new();
    for c in it: s.chars()
        invariant
            it.seq() == s@,
            out@ == it.seq().take(it.index()),
    {
        out.push(c);
    }
    assert(out@ =~= s@);
    out
}

/// Whether two texts are the same.
pub fn same_text(a: &str, b: &str) -> (r: bool)
    ensures
        r == (a@ == b@),
{
    a.to_owned() == b.to_owned()
}

/// The text of one decimal digit.
fn digit_text(d: u64) -> (r: &'static str)
    requires
        d < 10,
    ensures
        r@ == seq![digit_char(d as int)],
{
    proof {
        reveal_strlit("0");
        reveal_strlit("1");
        reveal_strlit("2");
        reveal_strlit("3");
        reveal_strlit("4");
        reveal_strlit("5");
        reveal_strlit("6");
        reveal_strlit("7");
        reveal_strlit("8");
        reveal_strlit("9");
    }
    let r = match d {
        0 => "0",
        1 => "1",
        2 => "2",
        3 => "3",
        4 => "4",
        5 => "5",
        6 => "6",
        7 => "7",
        8 => "8",
        _ => "9",
    };
    assert(r@ =~= seq![digit_char(d as int)]);
    r
}

/// The decimal form of an unsigned number.
pub fn u64_text(n: u64) -> (r: String)
    ensures
        r@ == dec_nat(n as nat),
    decreases n,
{
    if n < 10 {
        let r = String::from_str(digit_text(n));
        r
    } else {
        let mut r = u64_text(n / 10);
        r.append(digit_text(n % 10));
        assert(r@ =~= dec_nat(n as nat));
        r
    }
}

/// The decimal form of a signed number.
pub fn i64_text(i: i64) -> (r: String)
    ensures
        r@ == dec(i as int),
{
    if i < 0 {
        proof {
            reveal_strlit("-");
        }
        let mut r = String::from_str("-");
        let size: u64 = if i == i64::MIN {
            0x8000_0000_0000_0000u64
        } else {
            (-i) as u64
        };
        let digits = u64_text(size);
        r.append(digits.as_str());
        assert(r@ =~= dec(i as int));
        r
    } else {
        u64_text(i as u64)
    }
}

/// An error in a prefix is the error of the whole run.
proof fn lemma_magnitude_prefix_error(s: Seq<char>, k: int, max: nat, over: NumberError)
    requires
        0 <= k <= s.len(),
        magnitude(s.take(k), max, over) is Err,
    ensures
        magnitude(s, max, over) == magnitude(s.take(k), max, over),
    decreases s.len() - k,
{
    if k < s.len() {
        let t = s.take(k + 1);
        assert(t.drop_last() =~= s.take(k));
        lemma_magnitude_prefix_error(s, k + 1, max, over);
    } else {
        assert(s.take(k) =~= s);
    }
}

/// A run with a character that is no digit is no number.
pub proof fn lemma_magnitude_bad_char(s: Seq<char>, k: int, max: nat, over: NumberError)
    requires
        0 <= k < s.len(),
        !is_digit(s[k]),
    ensures
        magnitude(s, max, over) is Err,
{
    let t = s.take(k + 1);
    assert(t.last() == s[k]);
    lemma_magnitude_prefix_error(s, k + 1, max, over);
}

/// Reads the digits of `chars[from..to]`, see `magnitude`.
fn magnitude_of(chars: &Vec<char>, from: usize, to: usize, max: u64, over: NumberError) -> (r: Result<
    u64,
    NumberError,
>)
    requires
        from <= to <= chars.len(),
    ensures
        match magnitude(chars@.subrange(from as int, to as int), max as nat, over) {
            Ok(v) => r == Ok::<u64, NumberError>(v as u64) && v <= max,
            Err(e) => r == Err::<u64, NumberError>(e),
        },
{
    let ghost s = chars@.subrange(from as int, to as int);
    let mut v: u64 = 0;
    let mut i: usize = from;
    while i < to
        invariant
            from <= i <= to <= chars.len(),
            s == chars@.subrange(from as int, to as int),
            v <= max,
            magnitude(s.take(i - from), max as nat, over) == Ok::<nat, NumberError>(v as nat),
        decreases to - i,
    {
        let c = chars[i];
        let ghost t = s.take(i - from + 1);
        assert(t.drop_last() =~= s.take(i - from));
        assert(t.last() == c);
        if c < '0' || c > '9' {
            proof {
                lemma_magnitude_prefix_error(s, i - from + 1, max as nat, over);
            }
            return Err(NumberError::InvalidDigit);
        }
        let d: u64 = (c as u32 - '0' as u32) as u64;
        if v > max / 10 || d > max - v * 10 {
            proof {
                lemma_magnitude_prefix_error(s, i - from + 1, max as nat, over);
            }
            return Err(over);
        }
        v = v * 10 + d;
        i = i + 1;
    }
    assert(s.take(to - from) =~= s);
    Ok(v)
}

/// Reads a 64-bit signed number from `chars[from..to]`.
pub fn parse_i64_in(chars: &Vec<char>, from: usize, to: usize) -> (r: Result<i64, NumberError>)
    requires
        from <= to <= chars.len(),
    ensures
        match parse_signed(chars@.subrange(from as int, to as int)) {
            Ok(v) => r == Ok::<i64, NumberError>(v as i64) && i64::MIN <= v <= i64::MAX,
            Err(e) => r == Err::<i64, NumberError>(e),
        },
{
    let ghost s = chars@.subrange(from as int, to as int);
    if from == to {
        return Err(NumberError::Empty);
    }
    let first = chars[from];
    if to - from == 1 && (first == '+' || first == '-') {
        return Err(NumberError::InvalidDigit);
    }
    assert(s.skip(1) =~= chars@.subrange(from + 1, to as int));
    if first == '-' {
        match magnitude_of(chars, from + 1, to, 0x8000_0000_0000_0000u64, NumberError::TooSmall) {
            Err(e) => Err(e),
            Ok(v) => if v == 0x8000_0000_0000_0000u64 {
                Ok(i64::MIN)
            } else {
                Ok(-(v as i64))
            },
        }
    } else {
        let start: usize = if first == '+' {
            from + 1
        } else {
            from
        };
        match magnitude_of(chars, start, to, 0x7fff_ffff_ffff_ffffu64, NumberError::TooLarge) {
            Err(e) => Err(e),
            Ok(v) => Ok(v as i64),
        }
    }
}

/// Reads a 64-bit signed number.
pub fn parse_i64(s: &str) -> (r: Result<i64, NumberError>)
    ensures
        match parse_signed(s@) {
            Ok(v) => r == Ok::<i64, NumberError>(v as i64) && i64::MIN <= v <= i64::MAX,
            Err(e) => r == Err::<i64, NumberError>(e),
        },
{
    let chars = chars_of(s);
    assert(chars@.subrange(0, chars@.len() as int) =~= s@);
    parse_i64_in(&chars, 0, chars.len())
}

/// Reads an unsigned number of at most `max` from `chars[from..to]`.
pub fn parse_u64_in(chars: &Vec<char>, from: usize, to: usize, max: u64) -> (r: Result<
    u64,
    NumberError,
>)
    requires
        from <= to <= chars.len(),
    ensures
        match parse_unsigned(chars@.subrange(from as int, to as int), max as nat) {
            Ok(v) => r == Ok::<u64, NumberError>(v as u64) && v <= max,
            Err(e) => r == Err::<u64, NumberError>(e),
        },
{
    let ghost s = chars@.subrange(from as int, to as int);
    if from == to {
        return Err(NumberError::Empty);
    }
    let first = chars[from];
    if to - from == 1 && (first == '+' || first == '-') {
        return Err(NumberError::InvalidDigit);
    }
    assert(s.skip(1) =~= chars@.subrange(from + 1, to as int));
    let start: usize = if first == '+' {
        from + 1
    } else {
        from
    };
    magnitude_of(chars, start, to, max, NumberError::TooLarge)
}

/// Reads an unsigned number of at most `max`.
pub fn parse_u64(s: &str, max: u64) -> (r: Result<u64, NumberError>)
    ensures
        match parse_unsigned(s@, max as nat) {
            Ok(v) => r == Ok::<u64, NumberError>(v as u64) && v <= max,
            Err(e) => r == Err::<u64, NumberError>(e),
        },
{
    let chars = chars_of(s);
    assert(chars@.subrange(0, chars@.len() as int) =~= s@);
    parse_u64_in(&chars, 0, chars.len(), max)
}

/// The decimal form of a number is made of digits and reads as that number.
pub proof fn lemma_dec_nat_reads_back(n: nat, max: nat, over: NumberError)
    requires
        n <= max,
    ensures
        dec_nat(n).len() > 0,
        forall|i: int| 0 <= i < dec_nat(n).len() ==> is_digit(#[trigger] dec_nat(n)[i]),
        magnitude(dec_nat(n), max, over) == Ok::<nat, NumberError>(n),
    decreases n,
{
    if n < 10 {
        let s = dec_nat(n);
        assert(s.drop_last() =~= Seq::<char>::empty());
        assert(magnitude(s.drop_last(), max, over) == Ok::<nat, NumberError>(0nat));
        assert(digit_of(digit_char(n as int)) == n);
    } else {
        lemma_dec_nat_reads_back(n / 10, max, over);
        let s = dec_nat(n);
        assert(s.drop_last() =~= dec_nat(n / 10));
        assert(digit_of(digit_char((n % 10) as int)) == n % 10);
    }
}

/// What the decimal form of a 64-bit number reads back as is that number.
pub proof fn law_decimal_reads_back(i: i64)
    ensures
        parse_signed(dec(i as int)) == Ok::<int, NumberError>(i as int),
{
    if i < 0 {
        let n = (-i) as nat;
        lemma_dec_nat_reads_back(n, 0x8000_0000_0000_0000nat, NumberError::TooSmall);
        let s = dec(i as int);
        assert(s.skip(1) =~= dec_nat(n));
        assert(s[0] == '-');
    } else {
        lemma_dec_nat_reads_back(i as nat, 0x7fff_ffff_ffff_ffffnat, NumberError::TooLarge);
        let s = dec(i as int);
        assert(is_digit(s[0]));
    }
}

/// The decimal forms of two different numbers differ.
pub proof fn law_decimal_is_injective(i: i64, j: i64)
    requires
        dec(i as int) == dec(j as int),
    ensures
        i == j,
{
    law_decimal_reads_back(i);
    law_decimal_reads_back(j);
}

/// Whether a pattern stands in a text at a place.
pub open spec fn occurs_at(s: Seq<char>, p: Seq<char>, at: int) -> bool {
    0 <= at && at + p.len() <= s.len() && s.subrange(at, at + p.len()) == p
}

/// Whether `pattern` stands in `chars` at `at`.
pub fn pattern_at(chars: &Vec<char>, pattern: &Vec<char>, at: usize) -> (r: bool)
    ensures
        r == occurs_at(chars@, pattern@, at as int),
{
    if at > chars.len() || pattern.len() > chars.len() - at {
        return false;
    }
    let mut i: usize = 0;
    while i < pattern.len()
        invariant
            i <= pattern.len(),
            at + pattern.len() <= chars.len(),
            forall|j: int| 0 <= j < i ==> chars[at + j] == pattern[j],
        decreases pattern.len() - i,
    {
        if chars[at + i] != pattern[i] {
            assert(chars@.subrange(at as int, at + pattern@.len())[i as int] != pattern@[i as int]);
            return false;
        }
        i = i + 1;
    }
    assert(chars@.subrange(at as int, at + pattern@.len()) =~= pattern@);
    true
}

/// Whether a text begins with another.
pub fn starts_with(s: &str, p: &str) -> (r: bool)
    ensures
        r == p@.is_prefix_of(s@),
{
    let chars = chars_of(s);
    let pattern = chars_of(p);
    let r = pattern_at(&chars, &pattern, 0);
    proof {
        if p@.len() <= s@.len() {
            assert(s@.subrange(0, p@.len() as int) =~= s@.take(p@.len() as int));
        }
    }
    r
}

/// The first place where a pattern stands in a text.
pub fn find_pattern(chars: &Vec<char>, pattern: &Vec<char>) -> (r: Option<usize>)
    ensures
        match r {
            Some(at) => occurs_at(chars@, pattern@, at as int) && forall|j: int|
                0 <= j < at ==> !#[trigger] occurs_at(chars@, pattern@, j),
            None => forall|j: int| !#[trigger] occurs_at(chars@, pattern@, j),
        },
{
    let mut at: usize = 0;
    loop
        invariant
            at <= chars.len(),
            forall|j: int| 0 <= j < at ==> !#[trigger] occurs_at(chars@, pattern@, j),
        decreases chars.len() - at,
    {
        if pattern_at(chars, pattern, at) {
            return Some(at);
        }
        if at == chars.len() {
            return None;
        }
        at = at + 1;
    }
}

/// The rest of a text after a prefix, if it begins with it.
pub fn strip_prefix<'a>(s: &'a str, p: &str) -> (r: Option<&'a str>)
    ensures
        match r {
            Some(rest) => p@.is_prefix_of(s@) && rest@ == s@.skip(p@.len() as int),
            None => !p@.is_prefix_of(s@),
        },
{
    if starts_with(s, p) {
        let n = p.unicode_len();
        let rest = s.substring_char(n, s.unicode_len());
        assert(rest@ =~= s@.skip(p@.len() as int));
        Some(rest)
    } else {
        None
    }
}

/// The first place of a character in `chars` at or after `from`.
pub fn find_char(chars: &Vec<char>, c: char, from: usize) -> (r: Option<usize>)
    requires
        from <= chars.len(),
    ensures
        match r {
            Some(at) => from <= at < chars.len() && chars[at as int] == c && forall|j: int|
                from <= j < at ==> chars[j] != c,
            None => forall|j: int| from <= j < chars.len() ==> chars[j] != c,
        },
{
    let mut at: usize = from;
    while at < chars.len()
        invariant
            from <= at <= chars.len(),
            forall|j: int| from <= j < at ==> chars[j] != c,
        decreases chars.len() - at,
    {
        if chars[at] == c {
            return Some(at);
        }
        at = at + 1;
    }
    None
}

/// The last place of a character in `chars`.
pub fn find_last_char(chars: &Vec<char>, c: char) -> (r: Option<usize>)
    ensures
        match r {
            Some(at) => at < chars.len() && chars[at as int] == c && forall|j: int|
                at < j < chars.len() ==> chars[j] != c,
            None => forall|j: int| 0 <= j < chars.len() ==> chars[j] != c,
        },
{
    let mut at: usize = chars.len();
    while at > 0
        invariant
            at <= chars.len(),
            forall|j: int| at <= j < chars.len() ==> chars[j] != c,
        decreases at,
    {
        at = at - 1;
        if chars[at] == c {
            return Some(at);
        }
    }
    None
}

/// What a text says of truth.
pub open spec fn parse_truth(s: Seq<char>) -> Option<bool> {
    if s == "true"@ {
        Some(true)
    } else if s == "false"@ {
        Some(false)
    } else {
        None
    }
}

/// Reads a truth value.
pub fn parse_bool(s: &str) -> (r: Option<bool>)
    ensures
        r == parse_truth(s@),
{
    if same_text(s, "true") {
        Some(true)
    } else if same_text(s, "false") {
        proof {
            reveal_strlit("true");
            reveal_strlit("false");
        }
        Some(false)
    } else {
        None
    }
}

/// The place of the first `c` in a text.
pub open spec fn first_index(s: Seq<char>, c: char) -> Option<int>
    decreases s.len(),
{
    if s.len() == 0 {
        None
    } else if s[0] == c {
        Some(0)
    } else {
        match first_index(s.skip(1), c) {
            Some(i) => Some(i + 1),
            None => None,
        }
    }
}

/// The place of the last `c` in a text.
pub open spec fn last_index(s: Seq<char>, c: char) -> Option<int>
    decreases s.len(),
{
    if s.len() == 0 {
        None
    } else if s.last() == c {
        Some(s.len() - 1)
    } else {
        last_index(s.drop_last(), c)
    }
}

/// A place with no `c` before it is the first.
pub proof fn lemma_first_index(s: Seq<char>, c: char, i: int)
    requires
        0 <= i <= s.len(),
        forall|j: int| 0 <= j < i ==> s[j] != c,
        i < s.len() ==> s[i] == c,
    ensures
        first_index(s, c) == (if i < s.len() {
            Some(i)
        } else {
            None
        }),
    decreases s.len(),
{
    if i > 0 {
        let t = s.skip(1);
        assert(forall|j: int| 0 <= j < i - 1 ==> t[j] == s[j + 1]);
        lemma_first_index(t, c, i - 1);
    }
}

/// A place with no `c` after it is the last.
pub proof fn lemma_last_index(s: Seq<char>, c: char, i: int)
    requires
        -1 <= i < s.len(),
        forall|j: int| i < j < s.len() ==> s[j] != c,
        i >= 0 ==> s[i] == c,
    ensures
        last_index(s, c) == (if i >= 0 {
            Some(i)
        } else {
            None
        }),
    decreases s.len(),
{
    if i < s.len() - 1 {
        lemma_last_index(s.drop_last(), c, i);
    }
}

/// A text without the `c` at its beginning.
pub open spec fn trim_start(s: Seq<char>, c: char) -> Seq<char>
    decreases s.len(),
{
    if s.len() > 0 && s[0] == c {
        trim_start(s.skip(1), c)
    } else {
        s
    }
}

/// A text without the `c` at its end.
pub open spec fn trim_end(s: Seq<char>, c: char) -> Seq<char>
    decreases s.len(),
{
    if s.len() > 0 && s.last() == c {
        trim_end(s.drop_last(), c)
    } else {
        s
    }
}

/// The text of `chars[from..to]` without the `open` at its beginning and then
/// without the `close` at its end, as the two ends of a range.
pub fn trim_range(chars: &Vec<char>, from: usize, to: usize, open: char, close: char) -> (r: (
    usize,
    usize,
))
    requires
        from <= to <= chars.len(),
    ensures
        from <= r.0 <= r.1 <= to,
        chars@.subrange(r.0 as int, r.1 as int) == trim_end(
            trim_start(chars@.subrange(from as int, to as int), open),
            close,
        ),
{
    let ghost whole = trim_start(chars@.subrange(from as int, to as int), open);
    let mut a: usize = from;
    while a < to && chars[a] == open
        invariant
            from <= a <= to <= chars.len(),
            trim_start(chars@.subrange(a as int, to as int), open) == whole,
        decreases to - a,
    {
        assert(chars@.subrange(a as int, to as int).skip(1) =~= chars@.subrange(
            a + 1,
            to as int,
        ));
        a = a + 1;
    }
    assert(chars@.subrange(a as int, to as int) == whole);
    let ghost done = trim_end(whole, close);
    let mut b: usize = to;
    while b > a && chars[b - 1] == close
        invariant
            a <= b <= to <= chars.len(),
            trim_end(chars@.subrange(a as int, b as int), close) == done,
        decreases b - a,
    {
        assert(chars@.subrange(a as int, b as int).drop_last() =~= chars@.subrange(
            a as int,
            b - 1,
        ));
        b = b - 1;
    }
    (a, b)
}

/// The parts of a text between the `c` in it.
pub open spec fn split(s: Seq<char>, c: char) -> Seq<Seq<char>>
    decreases s.len(),
{
    if s.len() == 0 {
        seq![Seq::empty()]
    } else {
        let parts = split(s.drop_last(), c);
        if s.last() == c {
            parts.push(Seq::empty())
        } else {
            parts.drop_last().push(parts.last().push(s.last()))
        }
    }
}

/// The views of the texts of a list.
pub open spec fn texts(s: Seq<String>) -> Seq<Seq<char>> {
    Seq::new(s.len(), |i: int| s[i]@)
}

/// There is at least one part.
pub proof fn lemma_split_not_empty(s: Seq<char>, c: char)
    ensures
        split(s, c).len() > 0,
    decreases s.len(),
{
    if s.len() > 0 {
        lemma_split_not_empty(s.drop_last(), c);
    }
}

/// The parts of a text between the `c` in it.
pub fn split_text(s: &str, c: char) -> (r: Vec<String>)
    ensures
        texts(r@) == split(s@, c),
        r.len() > 0,
{
    let chars = chars_of(s);
    let mut parts: Vec<String> = Vec::new();
    let mut start: usize = 0;
    let mut i: usize = 0;
    assert(s@.take(0) =~= Seq::empty());
    assert(split(s@.take(0), c) =~= texts(parts@).push(s@.subrange(0, 0)));
    while i < chars.len()
        invariant
            start <= i <= chars.len(),
            chars@ == s@,
            split(s@.take(i as int), c) == texts(parts@).push(s@.subrange(start as int, i as int)),
        decreases chars.len() - i,
    {
        let ghost before = texts(parts@);
        let ghost current = s@.subrange(start as int, i as int);
        assert(s@.take(i + 1).drop_last() =~= s@.take(i as int));
        assert(before.push(current).drop_last() =~= before);
        if chars[i] == c {
            parts.push(s.substring_char(start, i).to_owned());
            assert(texts(parts@) =~= before.push(current));
            start = i + 1;
            assert(s@.subrange(start as int, i + 1) =~= Seq::empty());
        } else {
            assert(s@.subrange(start as int, i + 1) =~= current.push(s@[i as int]));
        }
        i = i + 1;
        assert(split(s@.take(i as int), c) =~= texts(parts@).push(
            s@.subrange(start as int, i as int),
        ));
    }
    let ghost before = texts(parts@);
    parts.push(s.substring_char(start, i).to_owned());
    assert(texts(parts@) =~= before.push(s@.subrange(start as int, i as int)));
    assert(s@.take(i as int) =~= s@);
    parts
}

/// A text without `c` is its only part.
pub proof fn lemma_split_none(a: Seq<char>, c: char)
    requires
        forall|i: int| 0 <= i < a.len() ==> a[i] != c,
    ensures
        split(a, c) == seq![a],
    decreases a.len(),
{
    if a.len() > 0 {
        lemma_split_none(a.drop_last(), c);
        assert(a.drop_last().push(a.last()) =~= a);
        assert(split(a, c) =~= seq![a]);
    } else {
        assert(a =~= Seq::empty());
    }
}

/// What stands before the first `c` is the first part; the rest is split further.
pub proof fn lemma_split_first(a: Seq<char>, c: char, b: Seq<char>)
    requires
        forall|i: int| 0 <= i < a.len() ==> a[i] != c,
    ensures
        split(a + seq![c] + b, c) == seq![a] + split(b, c),
    decreases b.len(),
{
    let s = a + seq![c] + b;
    lemma_split_not_empty(b, c);
    if b.len() == 0 {
        assert(s.drop_last() =~= a);
        lemma_split_none(a, c);
        assert(split(s, c) =~= seq![a] + split(b, c));
    } else {
        let t = b.drop_last();
        lemma_split_first(a, c, t);
        lemma_split_not_empty(t, c);
        assert(s.drop_last() =~= a + seq![c] + t);
        assert(s.last() == b.last());
        let parts = seq![a] + split(t, c);
        assert(parts.last() == split(t, c).last());
        assert(parts.drop_last() =~= seq![a] + split(t, c).drop_last());
        assert(split(s, c) =~= seq![a] + split(b, c));
    }
}

/// The parts of a list that are not empty.
pub open spec fn not_empty_parts(parts: Seq<Seq<char>>) -> Seq<Seq<char>>
    decreases parts.len(),
{
    if parts.len() == 0 {
        Seq::empty()
    } else {
        let before = not_empty_parts(parts.drop_last());
        if parts.last().len() > 0 {
            before.push(parts.last())
        } else {
            before
        }
    }
}

/// The names that a path is made of: its parts between slashes that are not empty.
pub open spec fn components(path: Seq<char>) -> Seq<Seq<char>> {
    not_empty_parts(split(path, '/'))
}

/// The names that a path is made of.
pub fn path_components(path: &str) -> (r: Vec<String>)
    ensures
        texts(r@) == components(path@),
{
    let parts = split_text(path, '/');
    let mut r: Vec<String> = Vec::new();
    let mut i: usize = 0;
    let ghost all = texts(parts@);
    assert(texts(r@) =~= not_empty_parts(all.take(0)));
    while i < parts.len()
        invariant
            i <= parts.len(),
            all == texts(parts@),
            texts(r@) == not_empty_parts(all.take(i as int)),
        decreases parts.len() - i,
    {
        let ghost before = texts(r@);
        assert(all.take(i + 1).drop_last() =~= all.take(i as int));
        assert(all[i as int] == parts@[i as int]@);
        if !parts[i].as_str().is_empty() {
            r.push(parts[i].clone());
            assert(texts(r@) =~= before.push(parts@[i as int]@));
        }
        i = i + 1;
    }
    assert(all.take(i as int) =~= all);
    r
}

/// The parts with a separator between them.
pub open spec fn join(parts: Seq<Seq<char>>, c: char) -> Seq<char>
    decreases parts.len(),
{
    if parts.len() == 0 {
        Seq::empty()
    } else if parts.len() == 1 {
        parts[0]
    } else {
        join(parts.drop_last(), c).push(c) + parts.last()
    }
}

/// Joining the parts of a text gives the text back.
pub proof fn law_join_undoes_split(s: Seq<char>, c: char)
    ensures
        join(split(s, c), c) == s,
    decreases s.len(),
{
    if s.len() > 0 {
        let t = s.drop_last();
        law_join_undoes_split(t, c);
        lemma_split_not_empty(t, c);
        let parts = split(t, c);
        assert(s =~= t.push(s.last()));
        if s.last() == c {
            assert(split(s, c).drop_last() =~= parts);
            assert(join(split(s, c), c) =~= s);
        } else {
            let more = parts.drop_last().push(parts.last().push(s.last()));
            assert(more.drop_last() =~= parts.drop_last());
            if parts.len() == 1 {
                assert(join(more, c) =~= s);
            } else {
                assert(join(more, c) =~= s);
            }
        }
    }
}

/// The texts of a list from `from` on, with a separator between them.
pub fn join_from(parts: &Vec<String>, from: usize, sep: &str, c: char) -> (r: String)
    requires
        from <= parts.len(),
        sep@ == seq![c],
    ensures
        r@ == join(texts(parts@).skip(from as int), c),
{
    let mut r = String::new();
    let mut i: usize = from;
    let ghost all = texts(parts@).skip(from as int);
    assert(all.take(0) =~= Seq::empty());
    while i < parts.len()
        invariant
            from <= i <= parts.len(),
            sep@ == seq![c],
            all == texts(parts@).skip(from as int),
            r@ == join(all.take(i - from), c),
        decreases parts.len() - i,
    {
        let ghost before = r@;
        let ghost next = all.take(i - from + 1);
        assert(next.drop_last() =~= all.take(i - from));
        assert(next.last() == parts@[i as int]@);
        if i > from {
            r.append(sep);
            assert(r@ =~= before.push(c));
        } else {
            assert(before =~= Seq::empty());
        }
        r.append(parts[i].as_str());
        i = i + 1;
        assert(r@ =~= join(next, c));
    }
    assert(all.take(i - from) =~= all);
    r
}

/// The decimal form of a number above the largest value is over it.
proof fn lemma_dec_nat_is_over(n: nat, max: nat, over: NumberError)
    requires
        n > max,
    ensures
        magnitude(dec_nat(n), max, over) == Err::<nat, NumberError>(over),
    decreases n,
{
    let s = dec_nat(n);
    if n < 10 {
        assert(s.drop_last() =~= Seq::<char>::empty());
        assert(magnitude(s.drop_last(), max, over) == Ok::<nat, NumberError>(0nat));
        assert(digit_of(digit_char(n as int)) == n);
    } else {
        assert(s.drop_last() =~= dec_nat(n / 10));
        assert(digit_of(digit_char((n % 10) as int)) == n % 10);
        if n / 10 > max {
            lemma_dec_nat_is_over(n / 10, max, over);
        } else {
            lemma_dec_nat_reads_back(n / 10, max, over);
        }
    }
}

/// The decimal form of a number is made of digits alone.
proof fn lemma_dec_nat_is_digits(n: nat)
    ensures
        dec_nat(n).len() > 0,
        forall|i: int| 0 <= i < dec_nat(n).len() ==> is_digit(#[trigger] dec_nat(n)[i]),
{
    lemma_dec_nat_reads_back(n, n, NumberError::TooLarge);
}

/// What the decimal form of a number reads back as is that number, with and without a plus sign;
/// one above the largest value is refused as too large.
pub proof fn law_unsigned_reads_back(n: nat, max: nat)
    ensures
        n <= max ==> parse_unsigned(dec_nat(n), max) == Ok::<nat, NumberError>(n)
            && parse_unsigned(seq!['+'] + dec_nat(n), max) == Ok::<nat, NumberError>(n),
        n > max ==> parse_unsigned(dec_nat(n), max) == Err::<nat, NumberError>(
            NumberError::TooLarge,
        ),
{
    lemma_dec_nat_is_digits(n);
    let d = dec_nat(n);
    assert(is_digit(d[0]));
    let p = seq!['+'] + d;
    assert(p.skip(1) =~= d);
    if n <= max {
        lemma_dec_nat_reads_back(n, max, NumberError::TooLarge);
    } else {
        lemma_dec_nat_is_over(n, max, NumberError::TooLarge);
    }
}

/// A text reads as a number without sign only where it is digits, behind at most one plus sign.
pub proof fn law_only_digits_are_numbers(s: Seq<char>, max: nat, i: int)
    requires
        parse_unsigned(s, max) is Ok,
        0 <= i < s.len(),
    ensures
        ('0' <= s[i] && s[i] <= '9') || (i == 0 && s[0] == '+' && s.len() > 1),
        parse_unsigned(s, max)->Ok_0 <= max,
{
    let t = if s[0] == '+' {
        s.skip(1)
    } else {
        s
    };
    let k = if s[0] == '+' {
        i - 1
    } else {
        i
    };
    if k >= 0 && !is_digit(t[k]) {
        lemma_magnitude_bad_char(t, k, max, NumberError::TooLarge);
    }
    lemma_magnitude_fits(t, max, NumberError::TooLarge);
}

/// A number that is read is not above the largest value.
proof fn lemma_magnitude_fits(s: Seq<char>, max: nat, over: NumberError)
    ensures
        magnitude(s, max, over) matches Ok(v) ==> v <= max,
    decreases s.len(),
{
    if s.len() > 0 {
        lemma_magnitude_fits(s.drop_last(), max, over);
    }
}

/// One digit more makes a number ten times as large, and larger by that digit.
pub proof fn law_a_digit_counts_in_tens(s: Seq<char>, c: char, max: nat, v: nat)
    requires
        parse_unsigned(s, max) == Ok::<nat, NumberError>(v),
        '0' <= c && c <= '9',
        v * 10 + (c as int - 48) <= max,
    ensures
        parse_unsigned(s.push(c), max) == Ok::<nat, NumberError>(
            (v * 10 + (c as int - 48)) as nat,
        ),
{
    let t = if s[0] == '+' {
        s.skip(1)
    } else {
        s
    };
    assert(s.push(c).skip(1) =~= s.skip(1).push(c));
    assert(t.push(c).drop_last() =~= t);
}

/// What a text with a sign reads as is what its digits read as, with that sign.
pub proof fn law_signs_are_read(s: Seq<char>, i: int)
    ensures
        s.len() > 0 && s[0] != '+' && s[0] != '-' && parse_signed(s) is Ok ==> {
            &&& parse_signed(s)->Ok_0 >= 0
            &&& parse_signed(seq!['-'] + s) == Ok::<int, NumberError>(-parse_signed(s)->Ok_0)
            &&& parse_signed(seq!['+'] + s) == parse_signed(s)
        },
        parse_signed(s) is Ok && 0 <= i < s.len() ==> ('0' <= s[i] && s[i] <= '9') || (i == 0
            && s.len() > 1 && (s[0] == '+' || s[0] == '-')),
{
    assert((seq!['-'] + s).skip(1) =~= s);
    assert((seq!['+'] + s).skip(1) =~= s);
    if parse_signed(s) is Ok {
        lemma_magnitude_of_more(s, 0x7fff_ffff_ffff_ffffnat, NumberError::TooLarge);
        let t = if s[0] == '+' || s[0] == '-' {
            s.skip(1)
        } else {
            s
        };
        let k = if s[0] == '+' || s[0] == '-' {
            i - 1
        } else {
            i
        };
        if 0 <= i < s.len() && k >= 0 && !is_digit(t[k]) {
            lemma_magnitude_bad_char(t, k, 0x7fff_ffff_ffff_ffffnat, NumberError::TooLarge);
            lemma_magnitude_bad_char(t, k, 0x8000_0000_0000_0000nat, NumberError::TooSmall);
        }
    }
}

/// A number that is not above one limit is not above the next.
proof fn lemma_magnitude_of_more(s: Seq<char>, max: nat, over: NumberError)
    ensures
        magnitude(s, max, over) matches Ok(v) ==> magnitude(s, max + 1, NumberError::TooSmall)
            == Ok::<nat, NumberError>(v),
    decreases s.len(),
{
    if s.len() > 0 {
        lemma_magnitude_of_more(s.drop_last(), max, over);
    }
}

/// The parts of a text hold no separator.
pub proof fn law_parts_hold_no_separator(s: Seq<char>, c: char, i: int, j: int)
    requires
        0 <= i < split(s, c).len(),
        0 <= j < split(s, c)[i].len(),
    ensures
        split(s, c)[i][j] != c,
    decreases s.len(),
{
    if s.len() > 0 {
        let t = s.drop_last();
        lemma_split_not_empty(t, c);
        let parts = split(t, c);
        if i < parts.len() - 1 {
            law_parts_hold_no_separator(t, c, i, j);
        } else if i == parts.len() - 1 {
            if j < parts[i].len() {
                law_parts_hold_no_separator(t, c, i, j);
            }
        }
    }
}

/// The parts of a text behind a separator come after those before it.
pub proof fn lemma_split_concat(a: Seq<char>, c: char, b: Seq<char>)
    ensures
        split(a.push(c) + b, c) == split(a, c) + split(b, c),
    decreases b.len(),
{
    let s = a.push(c) + b;
    lemma_split_not_empty(b, c);
    if b.len() == 0 {
        assert(s =~= a.push(c));
        assert(s.drop_last() =~= a);
        assert(split(s, c) =~= split(a, c) + split(b, c));
    } else {
        let t = b.drop_last();
        lemma_split_concat(a, c, t);
        lemma_split_not_empty(t, c);
        assert(s.drop_last() =~= a.push(c) + t);
        assert(split(s, c) =~= split(a, c) + split(b, c));
    }
}

/// Splitting joined parts gives the parts back, where there are any and none holds the separator.
pub proof fn law_split_undoes_join(parts: Seq<Seq<char>>, c: char)
    requires
        parts.len() > 0,
        forall|i: int, j: int|
            0 <= i < parts.len() && 0 <= j < parts[i].len() ==> #[trigger] parts[i][j] != c,
    ensures
        split(join(parts, c), c) == parts,
    decreases parts.len(),
{
    let last = parts.last();
    assert forall|j: int| 0 <= j < last.len() implies last[j] != c by {
        assert(parts[parts.len() - 1][j] != c);
    }
    lemma_split_none(last, c);
    if parts.len() == 1 {
        assert(parts =~= seq![parts[0]]);
    } else {
        let init = parts.drop_last();
        assert forall|i: int, j: int|
            0 <= i < init.len() && 0 <= j < init[i].len() implies #[trigger] init[i][j] != c by {
            assert(parts[i][j] != c);
        }
        law_split_undoes_join(init, c);
        lemma_split_concat(join(init, c), c, last);
        assert(init + seq![last] =~= parts);
    }
}

} // verus!
