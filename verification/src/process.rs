//! Reading a byte stream.

use crate::bytes::{decimal, push_bytes};
use crate::grid::DamageGrid;
use crate::laws::{damage_covers_runs, damage_recorded, unchanged_is_recorded};
use crate::midseq::{seq_after, seq_after_concat, SeqState};
use crate::ops::{
    item_bytes, item_wf, items_bytes, items_events, items_wf, paint_bytes, paint_events,
    paint_items, paints_make_items, paints_wf, PaintOp, VtItem,
};
use crate::roundtrip::replayed;
use crate::state::{apply, apply_all, params_bytes, subparam_bytes, EventV, GridV};
use crate::stream::{
    incomplete_utf8_suffix_len, pending, ready, ready_in_parts, ready_is_settled, settled,
    settled_concat, settled_holds_nothing, valid_is_settled,
};
use crate::vt::{vt_events_view, vte_advance, vte_events};
use crate::wellformed::events_wf;
use vstd::prelude::*;
use vstd::utf8::{encode_utf8, valid_utf8};

verus! {

/// A grid as a reader of a stream: its state, the bytes that its parser has
/// read, and the bytes of a cut character that it holds back.
#[verifier::ext_equal]
pub struct StreamV {
    pub grid: GridV,
    pub fed: Seq<u8>,
    pub held: Seq<u8>,
}

/// What reading `bytes` does: a cut character at the end is held back, and the
/// events of the rest are applied.
#[verifier::opaque]
pub open spec fn processed(s: StreamV, bytes: Seq<u8>) -> StreamV {
    let all = s.held + bytes;
    let now = ready(all);
    StreamV {
        grid: if now.len() == 0 {
            s.grid
        } else {
            apply_all(s.grid, vte_events(s.fed, now))
        },
        fed: s.fed + now,
        held: pending(all),
    }
}

// ── Plain items stay at ground, between characters ──────────────────────────

/// A stream that ends with an ASCII byte ends between characters.
proof fn ascii_end_is_settled(bytes: Seq<u8>)
    requires
        bytes.len() > 0,
        bytes.last() < 0x80,
    ensures
        settled(bytes),
{
    assert(valid_utf8(Seq::<u8>::empty()));
}

/// The bytes of one character: below 128 the character itself, else all above.
proof fn char_bytes(ch: char)
    ensures
        encode_utf8(seq![ch]).len() > 0,
        valid_utf8(encode_utf8(seq![ch])),
        forall|i: int|
            0 <= i < encode_utf8(seq![ch]).len() ==> (#[trigger] encode_utf8(seq![ch])[i]) >= 0x80
                || encode_utf8(seq![ch])[i] == ch as u32,
{
    let chars = seq![ch];
    let bytes = encode_utf8(chars);
    vstd::utf8::encode_utf8_valid_utf8(chars);
    vstd::utf8::encode_utf8_first_scalar(chars);
    assert(chars.drop_first() =~= Seq::<char>::empty());
    if '\0' <= ch && ch <= '\u{7f}' {
        assert(vstd::utf8::is_ascii_chars(chars));
        vstd::utf8::is_ascii_chars_encode_utf8(chars);
        assert(chars[0] as u8 == bytes[0]);
    } else {
        assert(encode_utf8(chars.drop_first()) =~= Seq::<u8>::empty());
        assert(bytes =~= vstd::utf8::encode_scalar(ch as u32));
        if bytes.len() == 1 {
            let b = bytes[0];
            assert(vstd::utf8::is_leading_byte_width_1(b));
            assert((b & 0x7f) as u32 <= 0x7f) by (bit_vector);
            assert(false);
        }
    }
}

/// Bytes that neither end a CSI sequence nor abort it.
spec fn csi_inner(bytes: Seq<u8>) -> bool {
    forall|i: int| 0 <= i < bytes.len() ==> 0x20 <= (#[trigger] bytes[i]) <= 0x3f
}

proof fn csi_inner_stays(bytes: Seq<u8>)
    requires
        csi_inner(bytes),
    ensures
        seq_after(SeqState::Csi, bytes) == SeqState::Csi,
    decreases bytes.len(),
{
    if bytes.len() > 0 {
        csi_inner_stays(bytes.drop_last());
    }
}

proof fn decimal_inner(n: nat)
    ensures
        csi_inner(decimal(n)),
    decreases n,
{
    if n >= 10 {
        decimal_inner(n / 10);
    }
}

proof fn subparam_inner(param: Seq<u16>)
    ensures
        csi_inner(subparam_bytes(param)),
    decreases param.len(),
{
    if param.len() == 1 {
        decimal_inner(param[0] as nat);
    } else if param.len() > 1 {
        subparam_inner(param.drop_last());
        decimal_inner(param.last() as nat);
    }
}

proof fn params_inner(params: Seq<Seq<u16>>)
    ensures
        csi_inner(params_bytes(params)),
    decreases params.len(),
{
    if params.len() == 1 {
        subparam_inner(params[0]);
    } else if params.len() > 1 {
        params_inner(params.drop_last());
        subparam_inner(params.last());
    }
}

/// The parser is at ground again after a plain item, and between characters.
proof fn item_is_plain(item: VtItem)
    requires
        item_wf(item),
    ensures
        item_bytes(item).len() > 0,
        settled(item_bytes(item)),
        seq_after(SeqState::Ground, item_bytes(item)) == SeqState::Ground,
{
    let bytes = item_bytes(item);
    match item {
        VtItem::Text(ch) => {
            char_bytes(ch);
            valid_is_settled(bytes);
            assert forall|i: int| 0 <= i < bytes.len() implies (#[trigger] bytes[i]) != 0x1b by {}
            ground_stays(bytes);
        },
        VtItem::Control(byte) => {
            ascii_end_is_settled(bytes);
            assert forall|i: int| 0 <= i < bytes.len() implies (#[trigger] bytes[i]) != 0x1b by {}
            ground_stays(bytes);
        },
        VtItem::Csi { private, params, space, action } => {
            let mark = if private {
                seq![0x3fu8]
            } else {
                seq![]
            };
            let gap = if space {
                seq![0x20u8]
            } else {
                seq![]
            };
            let inner = mark + params_bytes(params) + gap;
            params_inner(params);
            assert(csi_inner(inner));
            csi_inner_stays(inner);
            let open = seq![0x1bu8, 0x5bu8];
            assert(bytes =~= open + inner + seq![action as u8]);
            assert(bytes.last() == action as u8);
            ascii_end_is_settled(bytes);
            reveal_with_fuel(seq_after, 3);
            assert(open.drop_last() =~= seq![0x1bu8]);
            assert(open.drop_last().drop_last() =~= Seq::<u8>::empty());
            assert(seq_after(SeqState::Ground, open) == SeqState::Csi);
            seq_after_concat(SeqState::Ground, open, inner);
            assert(bytes.drop_last() =~= open + inner);
        },
        VtItem::Esc(byte) => {
            ascii_end_is_settled(bytes);
            reveal_with_fuel(seq_after, 3);
            assert(bytes.drop_last() =~= seq![0x1bu8]);
            assert(bytes.drop_last().drop_last() =~= Seq::<u8>::empty());
        },
    }
}

proof fn ground_stays(bytes: Seq<u8>)
    requires
        forall|i: int| 0 <= i < bytes.len() ==> (#[trigger] bytes[i]) != 0x1b,
    ensures
        seq_after(SeqState::Ground, bytes) == SeqState::Ground,
    decreases bytes.len(),
{
    if bytes.len() > 0 {
        ground_stays(bytes.drop_last());
    }
}

/// The parser is at ground again after plain items, and between characters.
pub proof fn items_are_plain(items: Seq<VtItem>)
    requires
        items_wf(items),
    ensures
        settled(items_bytes(items)),
        seq_after(SeqState::Ground, items_bytes(items)) == SeqState::Ground,
        items_bytes(items).len() >= items.len(),
    decreases items.len(),
{
    if items.len() > 0 {
        let start = items.drop_last();
        items_are_plain(start);
        assert(item_wf(items.last()));
        item_is_plain(items.last());
        settled_concat(items_bytes(start), item_bytes(items.last()));
        seq_after_concat(SeqState::Ground, items_bytes(start), item_bytes(items.last()));
    } else {
        assert(crate::stream::non_ascii_tail(Seq::<u8>::empty()) =~= Seq::<u8>::empty());
        assert(valid_utf8(Seq::<u8>::empty()));
    }
}

// ── Cutting the stream ──────────────────────────────────────────────────────

/// Reading a stream in two parts, from what the parser reports of both.
proof fn processed_in_parts(s: StreamV, a: Seq<u8>, b: Seq<u8>)
    requires
        settled(s.fed),
        ready(s.held + (a + b)).len() > 0 ==> {
            let r1 = ready(s.held + a);
            let r2 = ready(pending(s.held + a) + b);
            let whole = vte_events(s.fed, r1 + r2);
            &&& whole == vte_events(s.fed, r1) + vte_events(s.fed + r1, r2)
            &&& whole == vte_events(s.fed, Seq::empty()) + whole
            &&& whole == whole + vte_events(s.fed + (r1 + r2), Seq::empty())
        },
    ensures
        processed(processed(s, a), b) == processed(s, a + b),
{
    reveal(processed);
    let h = s.held;
    let r1 = ready(h + a);
    let r2 = ready(pending(h + a) + b);
    assert(h + (a + b) =~= (h + a) + b);
    ready_in_parts(h + a, b);
    ready_is_settled(h + a);
    let whole = vte_events(s.fed, r1 + r2);
    assert((s.fed + r1) + r2 =~= s.fed + (r1 + r2));
    if (r1 + r2).len() > 0 {
        let e1 = vte_events(s.fed, r1);
        let e2 = vte_events(s.fed + r1, r2);
        crate::canvas::apply_all_concat(s.grid, e1, e2);
        if r1.len() == 0 {
            assert(r1 =~= Seq::empty());
            assert(whole.len() == vte_events(s.fed, Seq::empty()).len() + whole.len());
            assert(e1 =~= Seq::empty());
            assert(whole =~= e2);
        }
        if r2.len() == 0 {
            assert(r2 =~= Seq::empty());
            assert(r1 + r2 =~= r1);
            assert(whole.len() == whole.len() + vte_events(
                s.fed + (r1 + r2),
                Seq::empty(),
            ).len());
            assert(e2 =~= Seq::empty());
            assert(whole =~= e1);
        }
        assert(processed(processed(s, a), b).grid == apply_all(s.grid, whole));
    } else {
        assert(r1 =~= Seq::empty());
        assert(r2 =~= Seq::empty());
    }
    assert(processed(processed(s, a), b) =~= processed(s, a + b));
}

/// Reading applies every event that the parser reports, in order, of all bytes
/// but those of a cut character at the end, which are held back.
pub proof fn reading_applies_every_event(s: StreamV, bytes: Seq<u8>)
    ensures
        ({
            let after = processed(s, bytes);
            let now = ready(s.held + bytes);
            &&& after.fed == s.fed + now
            &&& after.held == pending(s.held + bytes)
            &&& now.len() > 0 ==> after.grid == apply_all(s.grid, vte_events(s.fed, now))
            &&& now.len() == 0 ==> after.grid == s.grid
        }),
{
    reveal(processed);
}

/// Events are applied one after the other, each to what the ones before it left.
pub proof fn events_apply_in_order(g: GridV, events: Seq<EventV>, event: EventV)
    ensures
        apply_all(g, Seq::empty()) == g,
        apply_all(g, events.push(event)) == apply(apply_all(g, events), event),
{
    assert(events.push(event).drop_last() =~= events);
}

/// Whether what is reported of `bytes` does not depend on how they are cut.
#[verifier::opaque]
spec fn reported_in_parts(fed: Seq<u8>, bytes: Seq<u8>) -> bool {
    forall|a: Seq<u8>, b: Seq<u8>|
        #![trigger vte_events(fed, a), vte_events(fed + a, b)]
        a + b == bytes && settled(fed + a) ==> vte_events(fed, bytes) == vte_events(fed, a)
            + vte_events(fed + a, b)
}

/// Whether plain items are reported one by one.
#[verifier::opaque]
spec fn reported_plainly(fed: Seq<u8>, bytes: Seq<u8>) -> bool {
    forall|items: Seq<VtItem>|
        #![trigger items_bytes(items)]
        seq_after(SeqState::Ground, fed) == SeqState::Ground && items_wf(items) && bytes
            == items_bytes(items) ==> vte_events(fed, bytes) == items_events(items)
}

/// Reading a stream in two parts does what reading it at once does.
proof fn parts_agree(s: StreamV, bytes: Seq<u8>, a: Seq<u8>, b: Seq<u8>)
    requires
        settled(s.fed),
        ready(s.held + bytes).len() > 0 ==> reported_in_parts(s.fed, ready(s.held + bytes)),
        a + b == bytes,
    ensures
        processed(processed(s, a), b) == processed(s, bytes),
{
    reveal(processed);
    reveal(reported_in_parts);
    let now = ready(s.held + bytes);
    if now.len() > 0 {
        let r1 = ready(s.held + a);
        let r2 = ready(pending(s.held + a) + b);
        assert(s.held + bytes =~= (s.held + a) + b);
        ready_in_parts(s.held + a, b);
        ready_is_settled(s.held + a);
        ready_is_settled(s.held + bytes);
        settled_concat(s.fed, r1);
        settled_concat(s.fed, now);
        let none = Seq::<u8>::empty();
        assert(none + now =~= now);
        assert(now + none =~= now);
        assert(s.fed + none =~= s.fed);
        assert(vte_events(s.fed, now) == vte_events(s.fed, r1) + vte_events(s.fed + r1, r2));
        assert(vte_events(s.fed, now) == vte_events(s.fed, none) + vte_events(s.fed + none, now));
        assert(vte_events(s.fed, now) == vte_events(s.fed, now) + vte_events(s.fed + now, none));
    }
    processed_in_parts(s, a, b);
}

/// Reading what the writers produced replays it.
proof fn steps_replay(s: StreamV, ops: Seq<PaintOp>)
    requires
        s.held.len() == 0,
        seq_after(SeqState::Ground, s.fed) == SeqState::Ground,
        paints_wf(ops),
        paint_bytes(ops).len() > 0 ==> reported_plainly(s.fed, paint_bytes(ops)),
    ensures
        processed(s, paint_bytes(ops)).grid == replayed(s.grid, ops),
        processed(s, paint_bytes(ops)).held.len() == 0,
        seq_after(SeqState::Ground, processed(s, paint_bytes(ops)).fed) == SeqState::Ground,
{
    reveal(processed);
    reveal(reported_plainly);
    let bytes = paint_bytes(ops);
    let items = paint_items(ops);
    paints_make_items(ops);
    items_are_plain(items);
    assert(s.held + bytes =~= bytes);
    settled_holds_nothing(bytes);
    seq_after_concat(SeqState::Ground, s.fed, bytes);
    reveal(replayed);
    if bytes.len() == 0 {
        assert(items.len() == 0);
        assert(paint_events(ops) =~= Seq::<EventV>::empty());
    } else {
        assert(items_bytes(items) == bytes);
    }
}

/// Reading a stream in any two parts does what reading it at once does.
proof fn parts_agree_all(s: StreamV, bytes: Seq<u8>)
    requires
        settled(s.fed),
        ready(s.held + bytes).len() > 0 ==> reported_in_parts(s.fed, ready(s.held + bytes)),
    ensures
        forall|a: Seq<u8>, b: Seq<u8>|
            #![trigger processed(processed(s, a), b)]
            a + b == bytes ==> processed(processed(s, a), b) == processed(s, bytes),
{
    assert forall|a: Seq<u8>, b: Seq<u8>| a + b == bytes implies #[trigger] processed(
        processed(s, a),
        b,
    ) == processed(s, bytes) by {
        parts_agree(s, bytes, a, b);
    }
}

/// Reading what the writers produced replays it, whatever they wrote.
proof fn steps_replay_all(s: StreamV, bytes: Seq<u8>)
    requires
        s.held.len() == 0,
        seq_after(SeqState::Ground, s.fed) == SeqState::Ground,
        ready(bytes).len() > 0 ==> reported_plainly(s.fed, ready(bytes)),
    ensures
        forall|ops: Seq<PaintOp>|
            #![trigger paint_bytes(ops)]
            paints_wf(ops) && bytes == paint_bytes(ops) ==> {
                let after = processed(s, bytes);
                &&& after.grid == replayed(s.grid, ops)
                &&& after.held.len() == 0
                &&& seq_after(SeqState::Ground, after.fed) == SeqState::Ground
            },
{
    assert forall|ops: Seq<PaintOp>|
        #![trigger paint_bytes(ops)]
        paints_wf(ops) && bytes == paint_bytes(ops) implies {
        let after = processed(s, bytes);
        &&& after.grid == replayed(s.grid, ops)
        &&& after.held.len() == 0
        &&& seq_after(SeqState::Ground, after.fed) == SeqState::Ground
    } by {
        paints_make_items(ops);
        items_are_plain(paint_items(ops));
        settled_holds_nothing(bytes);
        steps_replay(s, ops);
    }
}

impl DamageGrid {
    /// The grid as a reader of a stream.
    pub open(crate) spec fn stream(self) -> StreamV {
        StreamV { grid: self@, fed: self.fed(), held: self.held() }
    }

    /// Feed raw PTY bytes through the persistent parser, mutating the grid.
    ///
    /// The parser is persisted across calls so that multi-byte escape sequences
    /// split across PTY `read()` boundaries are handled correctly, and a UTF-8
    /// sequence cut by the end of `bytes` waits for its rest: reading a stream
    /// in parts, cut anywhere, does the same as reading it at once. Every visible
    /// cell that changes is covered by the damage record. Bytes that the grid's
    /// own writers produced are replayed step by step.
    pub fn process(&mut self, bytes: &[u8])
        requires
            old(self).wf(),
        ensures
            final(self).wf(),
            final(self).stream() == processed(old(self).stream(), bytes@),
            damage_recorded(old(self)@, final(self)@),
            forall|a: Seq<u8>, b: Seq<u8>|
                #![trigger processed(processed(old(self).stream(), a), b)]
                a + b == bytes@ ==> final(self).stream() == processed(
                    processed(old(self).stream(), a),
                    b,
                ),
            forall|ops: Seq<PaintOp>|
                #![trigger paint_bytes(ops)]
                paints_wf(ops) && bytes@ == paint_bytes(ops) && !old(self).in_sequence() && old(
                    self,
                ).held().len() == 0 ==> {
                    &&& final(self)@ == replayed(old(self)@, ops)
                    &&& !final(self).in_sequence()
                    &&& final(self).held().len() == 0
                },
    {
        let ghost before = self.stream();
        let ghost start = *self;
        let mut all: Vec<u8> = Vec::new();
        std::mem::swap(&mut all, &mut self.pending_utf8);
        push_bytes(&mut all, bytes);
        assert(all@ == before.held + bytes@);
        let pending_len: usize = incomplete_utf8_suffix_len(all.as_slice());
        let feed_len: usize = all.len() - pending_len;
        let whole = all.as_slice();
        let fed = vstd::slice::slice_subrange(whole, 0, feed_len);
        let held = vstd::slice::slice_subrange(whole, feed_len, whole.len());
        proof {
            ready_is_settled(all@);
            assert(fed@ =~= ready(all@));
            assert(held@ =~= pending(all@));
            settled_concat(before.fed, fed@);
            ready_in_parts(all@, Seq::empty());
            assert(all@ + Seq::<u8>::empty() =~= all@);
            assert(pending(all@) + Seq::<u8>::empty() =~= pending(all@));
        }
        if feed_len > 0 {
            self.advance_parser(fed);
        } else {
            proof {
                assert(before.fed + fed@ =~= before.fed);
                unchanged_is_recorded(before.grid);
                assert(self@ =~= before.grid);
            }
        }
        push_bytes(&mut self.pending_utf8, held);
        proof {
            assert(self.pending_utf8@ =~= pending(all@));
            assert(self.stream() == processed(before, bytes@)) by {
                reveal(processed);
                assert(self.stream() =~= processed(before, bytes@));
            }
            parts_agree_all(before, bytes@);
            if !start.in_sequence() && start.held().len() == 0 {
                assert(all@ =~= bytes@);
                steps_replay_all(before, bytes@);
            }
        }
    }

    /// Hands bytes to the parser and applies what it reports.
    fn advance_parser(&mut self, bytes: &[u8])
        requires
            crate::state::grid_wf(old(self)@),
            old(self).dirty.wf(),
            settled(old(self).fed()),
            settled(old(self).fed() + bytes@),
            old(self).held().len() == 0,
            old(self).seq == seq_after(SeqState::Ground, old(self).fed()),
            old(self).profile.decrqm_mode_2027_status == 0,
        ensures
            crate::state::grid_wf(final(self)@),
            final(self).dirty.wf(),
            final(self).fed() == old(self).fed() + bytes@,
            final(self).held() == old(self).held(),
            final(self).seq == seq_after(SeqState::Ground, final(self).fed()),
            final(self).profile == old(self).profile,
            final(self)@ == apply_all(old(self)@, vte_events(old(self).fed(), bytes@)),
            reported_in_parts(old(self).fed(), bytes@),
            damage_recorded(old(self)@, final(self)@),
            reported_plainly(old(self).fed(), bytes@),
    {
        let ghost before = *self;
        self.seq.advance_bytes(bytes);
        let events = vte_advance(&mut self.parser, bytes);
        proof {
            seq_after_concat(SeqState::Ground, before.fed(), bytes@);
            let seen = vt_events_view(events@);
            assert forall|i: int| 0 <= i < seen.len() implies crate::wellformed::event_wf(
                #[trigger] seen[i],
            ) by {
                assert(seen[i] == events@[i]@);
            }
            assert(self@ =~= before@);
            damage_covers_runs(before@, seen);
            reveal(reported_in_parts);
            reveal(reported_plainly);
        }
        self.apply_parsed(events.as_slice());
    }

    /// Applies the events of the bytes that the parser has just read.
    fn apply_parsed(&mut self, events: &[crate::vt::VtEvent])
        requires
            crate::state::grid_wf(old(self)@),
            old(self).dirty.wf(),
            settled(old(self).fed()),
            old(self).held().len() == 0,
            old(self).seq == seq_after(SeqState::Ground, old(self).fed()),
            old(self).profile.decrqm_mode_2027_status == 0,
            events_wf(vt_events_view(events@)),
        ensures
            crate::state::grid_wf(final(self)@),
            final(self).dirty.wf(),
            final(self).same_stream(*old(self)),
            final(self)@ == apply_all(old(self)@, vt_events_view(events@)),
    {
        proof {
            let none = Seq::<u8>::empty();
            assert(self.held() =~= none);
            assert(crate::stream::non_ascii_tail(none) =~= none);
            assert(valid_utf8(none));
            settled_holds_nothing(none);
        }
        self.apply_events(events);
    }

    /// Whether the parser is in the middle of an escape sequence.
    #[must_use]
    pub fn mid_sequence(&self) -> (r: bool)
        requires
            self.wf(),
        ensures
            r == self.in_sequence(),
    {
        !self.seq.is_ground()
    }
}

} // verus!
