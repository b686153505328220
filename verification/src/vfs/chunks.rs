//! The bytes of files in chunks.

use crate::meta::types::Inode;
use crate::vfs::fs::{chunk_id, chunk_number, law_chunk_numbers_are_distinct};
use vstd::prelude::*;

verus! {

/// A part of a range of bytes that lies in one chunk of a file.
#[derive(Debug, Clone, Copy, PartialEq, Eq, Structural)]
pub struct ChunkSpan {
    pub chunk_index: u64,
    pub offset_in_chunk: u64,
    pub len: usize,
}

/// How many bytes the first spans hold.
pub open spec fn spanned(spans: Seq<ChunkSpan>) -> nat
    decreases spans.len(),
{
    if spans.len() == 0 {
        0
    } else {
        spanned(spans.drop_last()) + spans.last().len as nat
    }
}

/// The access to a chunk for a span: the number of the chunk, where in it the span begins, and
/// which of the bytes at hand it holds.
#[derive(Debug, Clone, Copy, PartialEq, Eq, Structural)]
pub struct ChunkAccess {
    pub chunk_id: i64,
    pub offset_in_chunk: u64,
    pub from: usize,
    pub to: usize,
}

/// Whether the number of a chunk fits.
pub open spec fn numbered(ino: Inode, index: u64) -> bool {
    &&& index <= i64::MAX
    &&& i64::MIN <= ino.0 * 1000 <= i64::MAX
    &&& i64::MIN <= 1_000_000_000 + ino.0 * 1000 <= i64::MAX
    &&& chunk_number(ino.0, index) <= i64::MAX
}

/// The sum of the first spans is not larger than that of all.
proof fn lemma_spanned_grows(spans: Seq<ChunkSpan>, i: int)
    requires
        0 <= i <= spans.len(),
    ensures
        spanned(spans.take(i)) <= spanned(spans),
    decreases spans.len(),
{
    if i < spans.len() {
        lemma_spanned_grows(spans.drop_last(), i);
        assert(spans.drop_last().take(i) =~= spans.take(i));
    } else {
        assert(spans.take(i) =~= spans);
    }
}

/// The accesses to the chunks of a file for the spans of a range, one behind the other. Tells how
/// many bytes they hold together.
pub fn chunk_accesses(ino: Inode, spans: &Vec<ChunkSpan>) -> (r: (Vec<ChunkAccess>, usize))
    requires
        spanned(spans@) <= usize::MAX,
        forall|i: int| 0 <= i < spans@.len() ==> numbered(ino, (#[trigger] spans@[i]).chunk_index),
    ensures
        r.1 == spanned(spans@),
        r.0@.len() == spans@.len(),
        forall|i: int|
            0 <= i < spans@.len() ==> {
                let a = #[trigger] r.0@[i];
                &&& a.chunk_id == chunk_number(ino.0, spans@[i].chunk_index)
                &&& a.offset_in_chunk == spans@[i].offset_in_chunk
                &&& a.from == spanned(spans@.take(i))
                &&& a.to == a.from + spans@[i].len
            },
{
    let mut list: Vec<ChunkAccess> = Vec::new();
    let mut done: usize = 0;
    let mut i: usize = 0;
    while i < spans.len()
        invariant
            i <= spans.len(),
            list@.len() == i,
            done == spanned(spans@.take(i as int)),
            spanned(spans@) <= usize::MAX,
            forall|j: int|
                0 <= j < spans@.len() ==> numbered(ino, (#[trigger] spans@[j]).chunk_index),
            forall|j: int|
                0 <= j < i ==> {
                    let a = #[trigger] list@[j];
                    &&& a.chunk_id == chunk_number(ino.0, spans@[j].chunk_index)
                    &&& a.offset_in_chunk == spans@[j].offset_in_chunk
                    &&& a.from == spanned(spans@.take(j))
                    &&& a.to == a.from + spans@[j].len
                },
        decreases spans.len() - i,
    {
        let span = spans[i];
        proof {
            assert(numbered(ino, spans@[i as int].chunk_index));
            lemma_spanned_grows(spans@, i + 1);
            assert(spans@.take(i + 1).drop_last() =~= spans@.take(i as int));
        }
        let to: usize = done + span.len;
        list.push(
            ChunkAccess {
                chunk_id: chunk_id(ino, span.chunk_index),
                offset_in_chunk: span.offset_in_chunk,
                from: done,
                to,
            },
        );
        done = to;
        i = i + 1;
    }
    assert(spans@.take(i as int) =~= spans@);
    (list, done)
}

/// The accesses for a range take its bytes in order, without gap and without overlap, from the
/// first to the last.
pub proof fn law_accesses_tile_the_range(spans: Seq<ChunkSpan>, i: int)
    requires
        0 <= i < spans.len(),
    ensures
        spanned(spans.take(0)) == 0,
        spanned(spans.take(i + 1)) == spanned(spans.take(i)) + spans[i].len,
        spanned(spans.take(spans.len() as int)) == spanned(spans),
{
    assert(spans.take(i + 1).drop_last() =~= spans.take(i));
    assert(spans.take(spans.len() as int) =~= spans);
}

/// How many of the bytes from an offset on lie in the chunk of the first of them.
pub open spec fn first_part(chunk_size: int, offset: int, len: int) -> int {
    if len <= chunk_size - offset % chunk_size {
        len
    } else {
        chunk_size - offset % chunk_size
    }
}

/// The spans of a range of bytes, in order.
pub open spec fn spans_of(chunk_size: int, offset: int, len: int) -> Seq<ChunkSpan>
    decreases len,
{
    if chunk_size <= 0 || offset < 0 || len <= 0 {
        Seq::empty()
    } else {
        proof {
            lemma_first_part(chunk_size, offset, len);
        }
        let first = first_part(chunk_size, offset, len);
        seq![
            ChunkSpan {
                chunk_index: (offset / chunk_size) as u64,
                offset_in_chunk: (offset % chunk_size) as u64,
                len: first as usize,
            },
        ] + spans_of(chunk_size, offset + first, len - first)
    }
}

/// A part of a range is not empty and not larger than the range.
pub proof fn lemma_first_part(chunk_size: int, offset: int, len: int)
    requires
        chunk_size > 0,
        len > 0,
    ensures
        0 < first_part(chunk_size, offset, len) <= len,
        0 <= offset % chunk_size < chunk_size,
{
    assert(0 <= offset % chunk_size < chunk_size) by (nonlinear_arith)
        requires
            chunk_size > 0,
    ;
}

/// Splits a range of bytes at the borders of the chunks.
pub fn split_range(chunk_size: u64, offset: u64, len: usize) -> (r: Vec<ChunkSpan>)
    requires
        chunk_size > 0,
        offset + len <= u64::MAX,
    ensures
        r@ == spans_of(chunk_size as int, offset as int, len as int),
{
    let mut list: Vec<ChunkSpan> = Vec::new();
    let mut at: u64 = offset;
    let mut left: usize = len;
    let ghost whole = spans_of(chunk_size as int, offset as int, len as int);
    while left > 0
        invariant
            chunk_size > 0,
            at + left <= u64::MAX,
            whole == list@ + spans_of(chunk_size as int, at as int, left as int),
        decreases left,
    {
        proof {
            lemma_first_part(chunk_size as int, at as int, left as int);
        }
        let inside: u64 = at % chunk_size;
        let room: u64 = chunk_size - inside;
        let first: usize = if (left as u64) <= room {
            left
        } else {
            room as usize
        };
        let ghost before = list@;
        list.push(
            ChunkSpan { chunk_index: at / chunk_size, offset_in_chunk: inside, len: first },
        );
        assert(first == first_part(chunk_size as int, at as int, left as int));
        at = at + first as u64;
        left = left - first;
        assert(list@ + spans_of(chunk_size as int, at as int, left as int) =~= whole);
    }
    assert(list@ =~= whole);
    list
}

/// The spans of a range hold as many bytes as the range.
pub proof fn law_spans_hold_the_range(chunk_size: u64, offset: u64, len: usize)
    requires
        chunk_size > 0,
    ensures
        spanned(spans_of(chunk_size as int, offset as int, len as int)) == len,
{
    lemma_spans_hold(chunk_size as int, offset as int, len as int);
}

/// The spans of a range hold as many bytes as the range.
proof fn lemma_spans_hold(chunk_size: int, offset: int, len: int)
    requires
        chunk_size > 0,
        offset >= 0,
        0 <= len <= usize::MAX,
    ensures
        spanned(spans_of(chunk_size, offset, len)) == len,
    decreases len,
{
    if len > 0 {
        lemma_first_part(chunk_size, offset, len);
        let first = first_part(chunk_size, offset, len);
        let rest = spans_of(chunk_size, offset + first, len - first);
        lemma_spans_hold(chunk_size, offset + first, len - first);
        lemma_spanned_front(
            ChunkSpan {
                chunk_index: (offset / chunk_size) as u64,
                offset_in_chunk: (offset % chunk_size) as u64,
                len: first as usize,
            },
            rest,
        );
    }
}

/// A span in front adds its bytes.
proof fn lemma_spanned_front(span: ChunkSpan, rest: Seq<ChunkSpan>)
    ensures
        spanned(seq![span] + rest) == span.len + spanned(rest),
    decreases rest.len(),
{
    let all = seq![span] + rest;
    if rest.len() > 0 {
        assert(all.drop_last() =~= seq![span] + rest.drop_last());
        lemma_spanned_front(span, rest.drop_last());
    } else {
        assert(all.drop_last() =~= Seq::<ChunkSpan>::empty());
        reveal_with_fuel(spanned, 2);
    }
}

/// A byte of a range lies in the chunk of its position in the file, at the remainder of that
/// position, whatever the range is that it belongs to.
pub proof fn law_bytes_have_their_places(
    chunk_size: u64,
    offset: u64,
    len: usize,
    i: int,
    k: int,
)
    requires
        chunk_size > 0,
        offset + len <= u64::MAX,
        0 <= i < spans_of(chunk_size as int, offset as int, len as int).len(),
        0 <= k < spans_of(chunk_size as int, offset as int, len as int)[i].len,
    ensures
        ({
            let spans = spans_of(chunk_size as int, offset as int, len as int);
            let at = offset + spanned(spans.take(i)) + k;
            &&& spans[i].chunk_index == at / (chunk_size as int)
            &&& spans[i].offset_in_chunk + k == at % (chunk_size as int)
            &&& at < offset + len
        }),
{
    lemma_places(chunk_size as int, offset as int, len as int, i, k);
}

/// Every byte of a range goes to its own place.
proof fn lemma_places(chunk_size: int, offset: int, len: int, i: int, k: int)
    requires
        0 < chunk_size <= u64::MAX,
        offset >= 0,
        0 <= len <= usize::MAX,
        offset + len <= u64::MAX,
        0 <= i < spans_of(chunk_size, offset, len).len(),
        0 <= k < spans_of(chunk_size, offset, len)[i].len,
    ensures
        ({
            let spans = spans_of(chunk_size, offset, len);
            let at = offset + spanned(spans.take(i)) + k;
            &&& spans[i].chunk_index == at / chunk_size
            &&& spans[i].offset_in_chunk + k == at % chunk_size
            &&& at < offset + len
        }),
    decreases len,
{
    let spans = spans_of(chunk_size, offset, len);
    lemma_first_part(chunk_size, offset, len);
    let first = first_part(chunk_size, offset, len);
    let rest = spans_of(chunk_size, offset + first, len - first);
    let span = ChunkSpan {
        chunk_index: (offset / chunk_size) as u64,
        offset_in_chunk: (offset % chunk_size) as u64,
        len: first as usize,
    };
    assert(spans == seq![span] + rest);
    if i == 0 {
        assert(spans.take(0) =~= Seq::<ChunkSpan>::empty());
        assert(spans[0] == span);
        assert(0 <= offset / chunk_size <= offset) by (nonlinear_arith)
            requires
                chunk_size > 0,
                offset >= 0,
        ;
        let inside = offset % chunk_size;
        let index = offset / chunk_size;
        vstd::arithmetic::div_mod::lemma_fundamental_div_mod(offset, chunk_size);
        assert(offset + k == index * chunk_size + (inside + k)) by (nonlinear_arith)
            requires
                offset == chunk_size * index + inside,
        ;
        vstd::arithmetic::div_mod::lemma_fundamental_div_mod_converse(
            offset + k,
            chunk_size,
            index,
            inside + k,
        );
    } else {
        assert(spans[i] == rest[i - 1]);
        lemma_places(chunk_size, offset + first, len - first, i - 1, k);
        assert(spans.take(i) =~= seq![span] + rest.take(i - 1));
        lemma_spanned_front(span, rest.take(i - 1));
    }
}

/// The spans of a range hold bytes, and each lies in a later chunk than the one before it: no chunk
/// is touched twice, and none that holds no byte of the range.
pub proof fn law_each_chunk_is_touched_once(chunk_size: u64, offset: u64, len: usize, i: int)
    requires
        chunk_size > 0,
        offset + len <= u64::MAX,
        0 <= i < spans_of(chunk_size as int, offset as int, len as int).len(),
    ensures
        ({
            let spans = spans_of(chunk_size as int, offset as int, len as int);
            &&& spans[i].len > 0
            &&& spans[i].offset_in_chunk + spans[i].len <= chunk_size
            &&& i > 0 ==> spans[i].chunk_index == spans[i - 1].chunk_index + 1
                && spans[i].offset_in_chunk == 0
            &&& i + 1 < spans.len() ==> spans[i].offset_in_chunk + spans[i].len == chunk_size
        }),
{
    lemma_once(chunk_size as int, offset as int, len as int, i);
}

proof fn lemma_once(chunk_size: int, offset: int, len: int, i: int)
    requires
        0 < chunk_size <= u64::MAX,
        offset >= 0,
        0 <= len <= usize::MAX,
        offset + len <= u64::MAX,
        0 <= i < spans_of(chunk_size, offset, len).len(),
    ensures
        ({
            let spans = spans_of(chunk_size, offset, len);
            &&& spans[i].len > 0
            &&& spans[i].offset_in_chunk + spans[i].len <= chunk_size
            &&& i > 0 ==> spans[i].chunk_index == spans[i - 1].chunk_index + 1
                && spans[i].offset_in_chunk == 0
            &&& i + 1 < spans.len() ==> spans[i].offset_in_chunk + spans[i].len == chunk_size
        }),
    decreases len,
{
    let spans = spans_of(chunk_size, offset, len);
    lemma_first_part(chunk_size, offset, len);
    let first = first_part(chunk_size, offset, len);
    let rest = spans_of(chunk_size, offset + first, len - first);
    let span = ChunkSpan {
        chunk_index: (offset / chunk_size) as u64,
        offset_in_chunk: (offset % chunk_size) as u64,
        len: first as usize,
    };
    assert(spans == seq![span] + rest);
    let inside = offset % chunk_size;
    let index = offset / chunk_size;
    vstd::arithmetic::div_mod::lemma_fundamental_div_mod(offset, chunk_size);
    assert(0 <= index <= offset) by (nonlinear_arith)
        requires
            chunk_size > 0,
            offset >= 0,
            index == offset / chunk_size,
    ;
    if len > chunk_size - inside {
        assert(offset + first == (index + 1) * chunk_size + 0) by (nonlinear_arith)
            requires
                offset == chunk_size * index + inside,
                first == chunk_size - inside,
        ;
        vstd::arithmetic::div_mod::lemma_fundamental_div_mod_converse(
            offset + first,
            chunk_size,
            index + 1,
            0,
        );
        assert(index + 1 <= offset + first) by (nonlinear_arith)
            requires
                offset + first == (index + 1) * chunk_size + 0,
                chunk_size > 0,
                index >= 0,
        ;
        lemma_first_part(chunk_size, offset + first, len - first);
        assert(rest[0].chunk_index == index + 1);
        assert(rest[0].offset_in_chunk == 0);
    }
    if i == 0 {
        assert(spans[0] == span);
        if spans.len() > 1 {
            assert(rest.len() > 0);
        }
    } else {
        assert(spans[i] == rest[i - 1]);
        lemma_once(chunk_size, offset + first, len - first, i - 1);
        if i > 1 {
            assert(spans[i - 1] == rest[i - 2]);
        } else {
            assert(spans[0] == span);
        }
    }
}

/// No two places of files share a place in a chunk, as long as a file has less than a thousand
/// chunks.
pub proof fn law_places_are_distinct(chunk_size: u64, ino: i64, at: u64, other: i64, other_at: u64)
    requires
        chunk_size > 0,
        at / chunk_size < 1000,
        other_at / chunk_size < 1000,
        chunk_number(ino, at / chunk_size) == chunk_number(other, other_at / chunk_size),
        at % chunk_size == other_at % chunk_size,
    ensures
        ino == other,
        at == other_at,
{
    law_chunk_numbers_are_distinct(ino, at / chunk_size, other, other_at / chunk_size);
    vstd::arithmetic::div_mod::lemma_fundamental_div_mod(at as int, chunk_size as int);
    vstd::arithmetic::div_mod::lemma_fundamental_div_mod(other_at as int, chunk_size as int);
}

} // verus!
