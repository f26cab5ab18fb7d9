//! Cutting a byte stream where no UTF-8 sequence is cut in two.

use crate::bytes::utf8_text;
use vstd::prelude::*;
use vstd::utf8::{partial_valid_partial_invalid_utf8, valid_utf8, valid_utf8_concat};

verus! {

/// The bytes behind the last ASCII byte.
pub open spec fn non_ascii_tail(bytes: Seq<u8>) -> Seq<u8>
    decreases bytes.len(),
{
    if bytes.len() == 0 || bytes.last() < 0x80 {
        Seq::empty()
    } else {
        non_ascii_tail(bytes.drop_last()).push(bytes.last())
    }
}

/// The length of the longest valid UTF-8 prefix among those of at most `n`
/// bytes.
pub open spec fn longest_valid(bytes: Seq<u8>, n: int) -> int
    decreases n,
{
    if n <= 0 {
        0
    } else if valid_utf8(bytes.take(n)) {
        n
    } else {
        longest_valid(bytes, n - 1)
    }
}

/// The length of the longest valid UTF-8 prefix.
pub open spec fn valid_up_to(bytes: Seq<u8>) -> int {
    longest_valid(bytes, bytes.len() as int)
}

/// The number of bytes at the end that are held back: those of the bytes
/// behind the last ASCII byte that follow their longest valid prefix.
pub open spec fn held_back(bytes: Seq<u8>) -> int {
    let tail = non_ascii_tail(bytes);
    tail.len() - valid_up_to(tail)
}

/// The bytes that are not held back.
pub open spec fn ready(bytes: Seq<u8>) -> Seq<u8> {
    bytes.take(bytes.len() - held_back(bytes))
}

/// The bytes that are held back.
pub open spec fn pending(bytes: Seq<u8>) -> Seq<u8> {
    bytes.skip(bytes.len() - held_back(bytes))
}

/// Whether the stream ends between characters: what follows its last ASCII
/// byte is valid UTF-8.
pub open spec fn settled(bytes: Seq<u8>) -> bool {
    valid_utf8(non_ascii_tail(bytes))
}

proof fn valid_after(v: Seq<u8>, y: Seq<u8>)
    requires
        valid_utf8(v),
    ensures
        valid_utf8(v + y) == valid_utf8(y),
{
    if valid_utf8(y) {
        valid_utf8_concat(v, y);
    } else {
        let all = v + y;
        assert(all.subrange(0, v.len() as int) =~= v);
        assert(all.subrange(v.len() as int, all.len() as int) =~= y);
        partial_valid_partial_invalid_utf8(all, v.len() as int);
    }
}

/// The longest valid prefix is valid, and no longer one is.
proof fn longest_valid_is(bytes: Seq<u8>, n: int)
    requires
        0 <= n <= bytes.len(),
    ensures
        0 <= longest_valid(bytes, n) <= n,
        valid_utf8(bytes.take(longest_valid(bytes, n))),
        forall|m: int| longest_valid(bytes, n) < m <= n ==> !valid_utf8(#[trigger] bytes.take(m)),
    decreases n,
{
    if n > 0 && !valid_utf8(bytes.take(n)) {
        longest_valid_is(bytes, n - 1);
    }
    assert(bytes.take(0) =~= Seq::empty());
}

pub(crate) proof fn longest_valid_unique(bytes: Seq<u8>, n: int, at: int)
    requires
        0 <= at <= n <= bytes.len(),
        valid_utf8(bytes.take(at)),
        forall|m: int| at < m <= n ==> !valid_utf8(#[trigger] bytes.take(m)),
    ensures
        longest_valid(bytes, n) == at,
{
    longest_valid_is(bytes, n);
}

/// Behind a valid prefix the longest valid prefix goes on as if from the start.
pub(crate) proof fn valid_up_to_after(v: Seq<u8>, y: Seq<u8>)
    requires
        valid_utf8(v),
    ensures
        valid_up_to(v + y) == v.len() + valid_up_to(y),
{
    let all = v + y;
    let at = v.len() + valid_up_to(y);
    longest_valid_is(y, y.len() as int);
    assert(all.take(at) =~= v + y.take(valid_up_to(y)));
    valid_after(v, y.take(valid_up_to(y)));
    assert forall|m: int| at < m <= all.len() implies !valid_utf8(#[trigger] all.take(m)) by {
        assert(all.take(m) =~= v + y.take(m - v.len()));
        valid_after(v, y.take(m - v.len()));
    }
    longest_valid_unique(all, all.len() as int, at);
}

/// The bytes behind the last ASCII byte end the stream.
pub(crate) proof fn tail_is_suffix(bytes: Seq<u8>)
    ensures
        non_ascii_tail(bytes).len() <= bytes.len(),
        non_ascii_tail(bytes) == bytes.skip(bytes.len() - non_ascii_tail(bytes).len()),
        forall|i: int|
            0 <= i < non_ascii_tail(bytes).len() ==> (#[trigger] non_ascii_tail(bytes)[i]) >= 0x80,
        non_ascii_tail(bytes).len() < bytes.len() ==> bytes[bytes.len() - non_ascii_tail(
            bytes,
        ).len() - 1] < 0x80,
    decreases bytes.len(),
{
    if bytes.len() > 0 && bytes.last() >= 0x80 {
        tail_is_suffix(bytes.drop_last());
    }
    assert(non_ascii_tail(bytes) =~= bytes.skip(bytes.len() - non_ascii_tail(bytes).len()));
}

/// The bytes behind the last ASCII byte, found by what follows it.
proof fn tail_unique(bytes: Seq<u8>, start: int)
    requires
        0 <= start <= bytes.len(),
        forall|i: int| start <= i < bytes.len() ==> (#[trigger] bytes[i]) >= 0x80,
        start > 0 ==> bytes[start - 1] < 0x80,
    ensures
        non_ascii_tail(bytes) == bytes.skip(start),
    decreases bytes.len(),
{
    if start < bytes.len() {
        tail_unique(bytes.drop_last(), start);
        assert(bytes.drop_last().skip(start).push(bytes.last()) =~= bytes.skip(start));
    } else {
        assert(bytes.skip(start) =~= Seq::empty());
    }
}

/// Bytes without ASCII behind a stream extend what follows its last ASCII byte.
pub(crate) proof fn tail_extends(a: Seq<u8>, b: Seq<u8>)
    requires
        forall|i: int| 0 <= i < b.len() ==> (#[trigger] b[i]) >= 0x80,
    ensures
        non_ascii_tail(a + b) == non_ascii_tail(a) + b,
{
    tail_is_suffix(a);
    let t = non_ascii_tail(a);
    let start = a.len() - t.len();
    assert forall|i: int| start <= i < (a + b).len() implies (#[trigger] (a + b)[i]) >= 0x80 by {
        if i < a.len() {
            assert(t[i - start] >= 0x80);
        } else {
            assert(b[i - a.len()] >= 0x80);
        }
    }
    tail_unique(a + b, start);
    assert((a + b).skip(start) =~= t + b);
}

/// Only what follows the last ASCII byte counts, wherever the stream starts.
proof fn tail_of_ascii(a: Seq<u8>, b: Seq<u8>)
    requires
        exists|i: int| 0 <= i < b.len() && (#[trigger] b[i]) < 0x80,
    ensures
        non_ascii_tail(a + b) == non_ascii_tail(b),
        non_ascii_tail(b).len() < b.len(),
{
    tail_is_suffix(b);
    let t = non_ascii_tail(b);
    let i = choose|i: int| 0 <= i < b.len() && (#[trigger] b[i]) < 0x80;
    if t.len() == b.len() {
        assert(t =~= b);
        assert(t[i] >= 0x80);
    }
    let start = a.len() + b.len() - t.len();
    assert forall|k: int| start <= k < (a + b).len() implies (#[trigger] (a + b)[k]) >= 0x80 by {
        assert(t[k - start] >= 0x80);
    }
    tail_unique(a + b, start);
    assert((a + b).skip(start) =~= t);
}

/// What is held back and what is not make up the stream; what is not held back
/// ends between characters.
pub(crate) proof fn ready_is_settled(bytes: Seq<u8>)
    ensures
        0 <= held_back(bytes) <= bytes.len(),
        ready(bytes) + pending(bytes) == bytes,
        settled(ready(bytes)),
{
    tail_is_suffix(bytes);
    let t = non_ascii_tail(bytes);
    longest_valid_is(t, t.len() as int);
    let n = valid_up_to(t);
    assert(ready(bytes) + pending(bytes) =~= bytes);
    let start = bytes.len() - t.len();
    assert forall|i: int| start <= i < ready(bytes).len() implies (#[trigger] ready(bytes)[i])
        >= 0x80 by {
        assert(t[i - start] >= 0x80);
    }
    tail_unique(ready(bytes), start);
    assert(ready(bytes).skip(start) =~= t.take(n));
}

/// No more is held back than what follows the last ASCII byte.
pub(crate) proof fn held_within_tail(bytes: Seq<u8>)
    ensures
        0 <= held_back(bytes) <= non_ascii_tail(bytes).len() <= bytes.len(),
{
    tail_is_suffix(bytes);
    let tail = non_ascii_tail(bytes);
    longest_valid_is(tail, tail.len() as int);
}

/// A stream that ends between characters holds nothing back.
pub(crate) proof fn settled_holds_nothing(bytes: Seq<u8>)
    requires
        settled(bytes),
    ensures
        held_back(bytes) == 0,
        ready(bytes) == bytes,
        pending(bytes) == Seq::<u8>::empty(),
{
    tail_is_suffix(bytes);
    let t = non_ascii_tail(bytes);
    assert(t.take(t.len() as int) =~= t);
    assert(ready(bytes) =~= bytes);
    assert(pending(bytes) =~= Seq::empty());
}

/// A stream that ends between characters, extended by another one.
pub(crate) proof fn settled_concat(a: Seq<u8>, b: Seq<u8>)
    requires
        settled(a),
    ensures
        settled(a + b) == settled(b),
{
    tail_is_suffix(b);
    if exists|i: int| 0 <= i < b.len() && (#[trigger] b[i]) < 0x80 {
        tail_of_ascii(a, b);
    } else {
        tail_extends(a, b);
        tail_unique(b, 0);
        assert(b.skip(0) =~= b);
        valid_after(non_ascii_tail(a), b);
    }
}

/// Valid UTF-8 ends between characters.
pub(crate) proof fn valid_is_settled(bytes: Seq<u8>)
    requires
        valid_utf8(bytes),
    ensures
        settled(bytes),
    decreases bytes.len(),
{
    if bytes.len() > 0 {
        let n = vstd::utf8::length_of_first_scalar(bytes);
        let head = vstd::utf8::take_first_scalar(bytes);
        let rest = vstd::utf8::pop_first_scalar(bytes);
        assert(bytes =~= head + rest);
        valid_is_settled(rest);
        assert(valid_utf8(head)) by {
            reveal_with_fuel(valid_utf8, 2);
            assert(vstd::utf8::pop_first_scalar(head) =~= Seq::empty());
        }
        head_is_settled(head);
        settled_concat(head, rest);
    }
}

proof fn head_is_settled(head: Seq<u8>)
    requires
        valid_utf8(head),
        head.len() > 0,
        vstd::utf8::length_of_first_scalar(head) == head.len(),
    ensures
        settled(head),
{
    if head.len() == 1 {
        assert(head.drop_last() =~= Seq::empty());
        assert(head.last() == head[0]);
        if head[0] < 0x80 {
            assert(valid_utf8(Seq::<u8>::empty()));
        } else {
            assert(head[0] <= 0x7f) by {
                vstd::utf8::utf8_byte_ranges_bitwise(head[0]);
            }
        }
    } else {
        assert forall|i: int| 0 <= i < head.len() implies (#[trigger] head[i]) >= 0x80 by {
            vstd::utf8::utf8_byte_ranges_bitwise(head[0]);
            vstd::utf8::utf8_byte_ranges_bitwise(head[1]);
            if head.len() > 2 {
                vstd::utf8::utf8_byte_ranges_bitwise(head[2]);
            }
            if head.len() > 3 {
                vstd::utf8::utf8_byte_ranges_bitwise(head[3]);
            }
        }
        tail_unique(head, 0);
        assert(head.skip(0) =~= head);
    }
}

proof fn held_behind_ascii(a: Seq<u8>, b: Seq<u8>)
    requires
        exists|i: int| 0 <= i < b.len() && (#[trigger] b[i]) < 0x80,
    ensures
        held_back(a + b) == held_back(b),
{
    tail_of_ascii(a, b);
}

proof fn held_behind_tail(a: Seq<u8>, b: Seq<u8>)
    requires
        forall|i: int| 0 <= i < b.len() ==> (#[trigger] b[i]) >= 0x80,
    ensures
        held_back(a + b) == held_back(pending(a) + b),
{
    tail_is_suffix(a);
    let t = non_ascii_tail(a);
    let n = valid_up_to(t);
    longest_valid_is(t, t.len() as int);
    let v = t.take(n);
    let p = pending(a);
    assert(p =~= t.skip(n));
    tail_extends(a, b);
    assert forall|i: int| 0 <= i < (p + b).len() implies (#[trigger] (p + b)[i]) >= 0x80 by {
        if i < p.len() {
            assert(t[i + n] >= 0x80);
        } else {
            assert(b[i - p.len()] >= 0x80);
        }
    }
    tail_unique(p + b, 0);
    assert((p + b).skip(0) =~= p + b);
    assert(t + b =~= v + (p + b));
    valid_up_to_after(v, p + b);
}

/// Cutting a stream after its first part changes neither what is ready in all
/// nor what is held back at the end.
pub proof fn ready_in_parts(a: Seq<u8>, b: Seq<u8>)
    ensures
        ready(a + b) == ready(a) + ready(pending(a) + b),
        pending(a + b) == pending(pending(a) + b),
{
    let p = pending(a);
    if exists|i: int| 0 <= i < b.len() && (#[trigger] b[i]) < 0x80 {
        held_behind_ascii(a, b);
        held_behind_ascii(p, b);
    } else {
        held_behind_tail(a, b);
    }
    ready_is_settled(a);
    ready_is_settled(a + b);
    ready_is_settled(p + b);
    let h = held_back(a + b);
    assert(a == ready(a) + p);
    assert(ready(a + b) =~= ready(a) + ready(p + b));
    assert(pending(a + b) =~= pending(p + b));
}

/// Length of a trailing incomplete UTF-8 sequence that should be buffered.
pub fn incomplete_utf8_suffix_len(bytes: &[u8]) -> (r: usize)
    ensures
        r == held_back(bytes@),
        r <= bytes@.len(),
{
    proof {
        ready_is_settled(bytes@);
    }
    let mut start: usize = bytes.len();
    while start > 0 && bytes[start - 1] >= 0x80
        invariant
            start <= bytes@.len(),
            forall|i: int| start <= i < bytes@.len() ==> (#[trigger] bytes@[i]) >= 0x80,
        decreases start,
    {
        start = start - 1;
    }
    let suffix = vstd::slice::slice_subrange(bytes, start, bytes.len());
    proof {
        tail_unique(bytes@, start as int);
        assert(suffix@ =~= bytes@.skip(start as int));
    }
    match utf8_text(suffix) {
        Ok(_) => {
            assert(suffix@.take(suffix@.len() as int) =~= suffix@);
            0
        },
        Err(valid) => {
            proof {
                longest_valid_unique(suffix@, suffix@.len() as int, valid as int);
            }
            suffix.len() - valid
        },
    }
}

} // verus!
