//! Where sequences and characters begin and end in a stream.

use crate::midseq::{next_seq, seq_after, seq_after_concat, SeqState};
use crate::stream::{
    held_back, longest_valid_unique, non_ascii_tail, pending, ready, ready_is_settled,
    settled_holds_nothing, tail_extends, tail_is_suffix, valid_is_settled, valid_up_to_after,
};
use vstd::prelude::*;
use vstd::utf8::valid_utf8;

verus! {

// ── Sequences ───────────────────────────────────────────────────────────────

proof fn after_one(s: SeqState, byte: u8)
    ensures
        seq_after(s, seq![byte]) == next_seq(s, byte),
{
    reveal_with_fuel(seq_after, 2);
    assert(seq![byte].drop_last() =~= Seq::empty());
    assert(seq![byte].last() == byte);
}

proof fn stays(s: SeqState, bytes: Seq<u8>)
    requires
        forall|i: int| 0 <= i < bytes.len() ==> next_seq(s, #[trigger] bytes[i]) == s,
    ensures
        seq_after(s, bytes) == s,
    decreases bytes.len(),
{
    if bytes.len() > 0 {
        let rest = bytes.drop_last();
        assert forall|i: int| 0 <= i < rest.len() implies next_seq(s, #[trigger] rest[i]) == s by {
            assert(rest[i] == bytes[i]);
        }
        stays(s, rest);
        assert(next_seq(s, bytes[bytes.len() - 1]) == s);
    }
}

proof fn after_two(s: SeqState, first: u8, second: u8)
    ensures
        seq_after(s, seq![first, second]) == next_seq(next_seq(s, first), second),
{
    after_one(s, first);
    after_one(next_seq(s, first), second);
    seq_after_concat(s, seq![first], seq![second]);
    assert(seq![first] + seq![second] =~= seq![first, second]);
}

/// Whether the bytes neither start nor abort a sequence.
pub open spec fn without_controls(bytes: Seq<u8>) -> bool {
    forall|i: int|
        0 <= i < bytes.len() ==> (#[trigger] bytes[i]) != 0x1b && bytes[i] != 0x18 && bytes[i]
            != 0x1a
}

/// Text without the escape character is between sequences.
pub proof fn text_is_between_sequences(bytes: Seq<u8>)
    requires
        forall|i: int| 0 <= i < bytes.len() ==> (#[trigger] bytes[i]) != 0x1b,
    ensures
        seq_after(SeqState::Ground, bytes) == SeqState::Ground,
{
    stays(SeqState::Ground, bytes);
}

/// The escape character starts a sequence, and CAN and SUB abort any, wherever
/// they stand.
pub proof fn escape_starts_and_cancel_ends(s: SeqState)
    ensures
        seq_after(s, seq![0x1bu8]) != SeqState::Ground,
        seq_after(s, seq![0x18u8]) == SeqState::Ground,
        seq_after(s, seq![0x1au8]) == SeqState::Ground,
{
    after_one(s, 0x1b);
    after_one(s, 0x18);
    after_one(s, 0x1a);
}

/// A CSI sequence goes on through its parameters and intermediates and ends with
/// its final byte.
pub proof fn csi_ends_with_its_final(params: Seq<u8>, last: u8)
    requires
        forall|i: int| 0 <= i < params.len() ==> 0x20 <= #[trigger] params[i] <= 0x3f,
        0x40 <= last <= 0x7e,
    ensures
        seq_after(SeqState::Ground, seq![0x1bu8, 0x5b] + params) != SeqState::Ground,
        seq_after(SeqState::Ground, seq![0x1bu8, 0x5b] + params + seq![last]) == SeqState::Ground,
{
    let open = seq![0x1bu8, 0x5b];
    after_two(SeqState::Ground, 0x1b, 0x5b);
    stays(SeqState::Csi, params);
    seq_after_concat(SeqState::Ground, open, params);
    seq_after_concat(SeqState::Ground, open + params, seq![last]);
    after_one(SeqState::Csi, last);
}

/// An escape sequence ends with its final byte, after intermediates or not, but
/// for the bytes that open a longer sequence.
pub proof fn escape_ends_with_its_final(intermediates: Seq<u8>, last: u8)
    requires
        forall|i: int| 0 <= i < intermediates.len() ==> 0x20 <= #[trigger] intermediates[i] <= 0x2f,
        0x30 <= last <= 0x7e,
        intermediates.len() > 0 || (last != 0x50 && last != 0x58 && last != 0x5b && last != 0x5d
            && last != 0x5e && last != 0x5f),
    ensures
        seq_after(SeqState::Ground, seq![0x1bu8] + intermediates) != SeqState::Ground,
        seq_after(SeqState::Ground, seq![0x1bu8] + intermediates + seq![last]) == SeqState::Ground,
{
    after_one(SeqState::Ground, 0x1b);
    seq_after_concat(SeqState::Ground, seq![0x1bu8], intermediates);
    seq_after_concat(SeqState::Ground, seq![0x1bu8] + intermediates, seq![last]);
    if intermediates.len() == 0 {
        assert(seq![0x1bu8] + intermediates =~= seq![0x1bu8]);
        after_one(SeqState::Escape, last);
    } else {
        let first = intermediates[0];
        let rest = intermediates.skip(1);
        assert(intermediates =~= seq![first] + rest);
        after_one(SeqState::Escape, first);
        assert forall|i: int| 0 <= i < rest.len() implies next_seq(
            SeqState::EscapeIntermediate,
            #[trigger] rest[i],
        ) == SeqState::EscapeIntermediate by {
            assert(rest[i] == intermediates[i + 1]);
        }
        stays(SeqState::EscapeIntermediate, rest);
        seq_after_concat(SeqState::Escape, seq![first], rest);
        after_one(SeqState::EscapeIntermediate, last);
    }
}

/// An OSC string goes on through anything but BEL, and ends with BEL or with the
/// string terminator.
pub proof fn osc_ends_with_bell_or_terminator(payload: Seq<u8>)
    requires
        without_controls(payload),
        forall|i: int| 0 <= i < payload.len() ==> (#[trigger] payload[i]) != 0x07,
    ensures
        seq_after(SeqState::Ground, seq![0x1bu8, 0x5d] + payload) != SeqState::Ground,
        seq_after(SeqState::Ground, seq![0x1bu8, 0x5d] + payload + seq![0x07u8])
            == SeqState::Ground,
        seq_after(SeqState::Ground, seq![0x1bu8, 0x5d] + payload + seq![0x1bu8, 0x5c])
            == SeqState::Ground,
{
    let open = seq![0x1bu8, 0x5d];
    after_two(SeqState::Ground, 0x1b, 0x5d);
    stays(SeqState::Osc, payload);
    seq_after_concat(SeqState::Ground, open, payload);
    seq_after_concat(SeqState::Ground, open + payload, seq![0x07u8]);
    seq_after_concat(SeqState::Ground, open + payload, seq![0x1bu8, 0x5c]);
    after_one(SeqState::Osc, 0x07);
    after_two(SeqState::Osc, 0x1b, 0x5c);
}

/// SOS, PM and APC strings go on through anything, BEL among it, and end with the
/// string terminator.
pub proof fn strings_end_with_terminator(kind: u8, payload: Seq<u8>)
    requires
        kind == 0x58 || kind == 0x5e || kind == 0x5f,
        without_controls(payload),
    ensures
        seq_after(SeqState::Ground, seq![0x1bu8, kind] + payload) != SeqState::Ground,
        seq_after(SeqState::Ground, seq![0x1bu8, kind] + payload + seq![0x1bu8, 0x5c])
            == SeqState::Ground,
{
    let open = seq![0x1bu8, kind];
    after_two(SeqState::Ground, 0x1b, kind);
    stays(SeqState::SosPmApc, payload);
    seq_after_concat(SeqState::Ground, open, payload);
    seq_after_concat(SeqState::Ground, open + payload, seq![0x1bu8, 0x5c]);
    after_two(SeqState::SosPmApc, 0x1b, 0x5c);
}

/// A device control string goes on through its data, BEL among it, and ends with
/// the string terminator; inside its data the one-byte form ends it too.
pub proof fn device_strings_end_with_terminator(last: u8, data: Seq<u8>)
    requires
        0x40 <= last <= 0x7e,
        without_controls(data),
        forall|i: int| 0 <= i < data.len() ==> (#[trigger] data[i]) != 0x9c,
    ensures
        seq_after(SeqState::Ground, seq![0x1bu8, 0x50]) != SeqState::Ground,
        seq_after(SeqState::Ground, seq![0x1bu8, 0x50] + seq![last] + data) != SeqState::Ground,
        seq_after(SeqState::Ground, seq![0x1bu8, 0x50] + seq![last] + data + seq![0x1bu8, 0x5c])
            == SeqState::Ground,
        seq_after(SeqState::Ground, seq![0x1bu8, 0x50] + seq![last] + data + seq![0x9cu8])
            == SeqState::Ground,
{
    let open = seq![0x1bu8, 0x50];
    after_two(SeqState::Ground, 0x1b, 0x50);
    after_one(SeqState::DcsEntry, last);
    stays(SeqState::DcsPassthrough, data);
    seq_after_concat(SeqState::Ground, open, seq![last]);
    seq_after_concat(SeqState::Ground, open + seq![last], data);
    seq_after_concat(SeqState::Ground, open + seq![last] + data, seq![0x1bu8, 0x5c]);
    seq_after_concat(SeqState::Ground, open + seq![last] + data, seq![0x9cu8]);
    after_two(SeqState::DcsPassthrough, 0x1b, 0x5c);
    after_one(SeqState::DcsPassthrough, 0x9c);
}

/// The opening of a device control string goes on through its parameters and
/// intermediates, whatever they are.
pub proof fn device_strings_open_slowly(head: Seq<u8>)
    requires
        forall|i: int| 0 <= i < head.len() ==> 0x20 <= #[trigger] head[i] <= 0x3f,
    ensures
        ({
            let s = seq_after(SeqState::DcsEntry, head);
            s == SeqState::DcsEntry || s == SeqState::DcsParam || s == SeqState::DcsIntermediate
                || s == SeqState::DcsIgnore
        }),
        seq_after(SeqState::Ground, seq![0x1bu8, 0x50] + head) != SeqState::Ground,
    decreases head.len(),
{
    after_two(SeqState::Ground, 0x1b, 0x50);
    seq_after_concat(SeqState::Ground, seq![0x1bu8, 0x50], head);
    if head.len() > 0 {
        let rest = head.drop_last();
        assert forall|i: int| 0 <= i < rest.len() implies 0x20 <= #[trigger] rest[i] <= 0x3f by {
            assert(rest[i] == head[i]);
        }
        device_strings_open_slowly(rest);
        assert(0x20 <= head[head.len() - 1] <= 0x3f);
    }
}

/// Before its data a device control string is ended by its string terminator, not
/// by the one-byte form; its final byte opens the data, unless it is malformed.
pub proof fn device_strings_begin_their_data(head: Seq<u8>, last: u8)
    requires
        forall|i: int| 0 <= i < head.len() ==> 0x20 <= #[trigger] head[i] <= 0x3f,
        0x40 <= last <= 0x7e,
    ensures
        ({
            let s = seq_after(SeqState::DcsEntry, head);
            let ended = seq_after(s, seq![last]);
            &&& seq_after(s, seq![0x9cu8]) == s
            &&& seq_after(s, seq![0x1bu8, 0x5c]) == SeqState::Ground
            &&& ended == if s == SeqState::DcsIgnore {
                SeqState::DcsIgnore
            } else {
                SeqState::DcsPassthrough
            }
        }),
{
    device_strings_open_slowly(head);
    let s = seq_after(SeqState::DcsEntry, head);
    after_one(s, 0x9c);
    after_one(s, last);
    after_two(s, 0x1b, 0x5c);
}

/// A device control string is malformed, and stays so, once a private marker
/// follows a parameter, or a parameter follows an intermediate.
pub proof fn malformed_device_strings(rest: Seq<u8>, first: u8, second: u8)
    requires
        without_controls(rest),
        (0x30 <= first <= 0x3f && 0x3c <= second <= 0x3f) || (0x20 <= first <= 0x2f && 0x30
            <= second <= 0x3f),
    ensures
        seq_after(SeqState::DcsEntry, seq![first, second]) == SeqState::DcsIgnore,
        seq_after(SeqState::DcsEntry, seq![first, second] + rest) == SeqState::DcsIgnore,
{
    after_two(SeqState::DcsEntry, first, second);
    stays(SeqState::DcsIgnore, rest);
    seq_after_concat(SeqState::DcsEntry, seq![first, second], rest);
}

// ── Characters ──────────────────────────────────────────────────────────────

/// Whole characters are read at once; a character that is cut at the end, and
/// nothing before it, waits for its rest.
pub proof fn cut_characters_wait(whole: Seq<u8>, cut: Seq<u8>)
    requires
        valid_utf8(whole),
        forall|i: int| 0 <= i < cut.len() ==> (#[trigger] cut[i]) >= 0x80,
        forall|n: int| 0 < n <= cut.len() ==> !valid_utf8(#[trigger] cut.take(n)),
    ensures
        ready(whole + cut) == whole,
        pending(whole + cut) == cut,
{
    let tail = non_ascii_tail(whole);
    valid_is_settled(whole);
    tail_extends(whole, cut);
    tail_is_suffix(whole);
    assert(cut.take(0) =~= Seq::empty());
    longest_valid_unique(cut, cut.len() as int, 0);
    valid_up_to_after(tail, cut);
    assert(held_back(whole + cut) == cut.len());
    assert(ready(whole + cut) =~= whole);
    assert(pending(whole + cut) =~= cut);
}

/// Bytes that end with an ASCII byte are all read at once, valid or not, and
/// whatever is held back stands behind the last ASCII byte.
pub proof fn ascii_bytes_end_the_wait(bytes: Seq<u8>)
    ensures
        bytes.len() > 0 && bytes[bytes.len() - 1] < 0x80 ==> ready(bytes) == bytes && pending(
            bytes,
        ).len() == 0,
        ready(bytes) + pending(bytes) == bytes,
        forall|i: int| 0 <= i < pending(bytes).len() ==> (#[trigger] pending(bytes)[i]) >= 0x80,
{
    ready_is_settled(bytes);
    tail_is_suffix(bytes);
    let tail = non_ascii_tail(bytes);
    if bytes.len() > 0 && bytes[bytes.len() - 1] < 0x80 {
        assert(tail =~= Seq::empty());
        assert(valid_utf8(tail));
        settled_holds_nothing(bytes);
    }
    crate::stream::held_within_tail(bytes);
    assert forall|i: int| 0 <= i < pending(bytes).len() implies (#[trigger] pending(bytes)[i])
        >= 0x80 by {
        let k = tail.len() - pending(bytes).len() + i;
        assert(tail[k] >= 0x80);
        assert(tail[k] == bytes[bytes.len() - tail.len() + k]);
    }
}

} // verus!
