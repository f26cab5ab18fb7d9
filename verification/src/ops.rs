//! The terminal sequences that the library writes: what each one looks like in
//! bytes, and what the parser makes of it.

use crate::model::is_vt_control;
use crate::state::{params_bytes, EventV};
use vstd::prelude::*;
use vstd::utf8::encode_utf8;

verus! {

/// A sequence of the plain kind: text, a control, a CSI sequence with an
/// optional `?` before its parameters or space behind them, a short escape.
pub enum VtItem {
    Text(char),
    Control(u8),
    Csi { private: bool, params: Seq<Seq<u16>>, space: bool, action: char },
    Esc(u8),
}

/// The number of values in CSI parameters, colon values counted singly.
pub open spec fn value_count(params: Seq<Seq<u16>>) -> nat
    decreases params.len(),
{
    if params.len() == 0 {
        0
    } else {
        value_count(params.drop_last()) + params.last().len()
    }
}

/// Items that stand for themselves: text without control characters, controls
/// other than the escape character, CSI sequences with no more values than a
/// parser keeps, escapes that end at once.
pub open spec fn item_wf(item: VtItem) -> bool {
    match item {
        VtItem::Text(ch) => !is_vt_control(ch),
        VtItem::Control(byte) => byte == 0x08 || byte == 0x0a || byte == 0x0d,
        VtItem::Csi { private, params, space, action } => {
            &&& '@' <= action && action <= '~'
            &&& forall|i: int| 0 <= i < params.len() ==> (#[trigger] params[i]).len() >= 1
            &&& value_count(params) <= 32
            &&& !(private && space)
        },
        VtItem::Esc(byte) => byte == 0x37 || byte == 0x38 || byte == 0x3d || byte == 0x3e,
    }
}

/// The bytes of an item.
pub open spec fn item_bytes(item: VtItem) -> Seq<u8> {
    match item {
        VtItem::Text(ch) => encode_utf8(seq![ch]),
        VtItem::Control(byte) => seq![byte],
        VtItem::Csi { private, params, space, action } => seq![0x1bu8, 0x5bu8] + (if private {
            seq![0x3fu8]
        } else {
            seq![]
        }) + params_bytes(params) + (if space {
            seq![0x20u8]
        } else {
            seq![]
        }) + seq![action as u8],
        VtItem::Esc(byte) => seq![0x1bu8, byte],
    }
}

/// What the parser makes of an item: absent parameters come out as one zero.
pub open spec fn item_event(item: VtItem) -> EventV {
    match item {
        VtItem::Text(ch) => EventV::Print(ch),
        VtItem::Control(byte) => EventV::Execute(byte),
        VtItem::Csi { private, params, space, action } => EventV::Csi {
            params: if params.len() == 0 {
                seq![seq![0u16]]
            } else {
                params
            },
            intermediates: if private {
                seq![0x3fu8]
            } else if space {
                seq![0x20u8]
            } else {
                seq![]
            },
            action,
        },
        VtItem::Esc(byte) => EventV::Esc { byte },
    }
}

/// The bytes of items, one after the other.
pub open spec fn items_bytes(items: Seq<VtItem>) -> Seq<u8>
    decreases items.len(),
{
    if items.len() == 0 {
        Seq::empty()
    } else {
        items_bytes(items.drop_last()) + item_bytes(items.last())
    }
}

/// What the parser makes of items, one after the other.
pub open spec fn items_events(items: Seq<VtItem>) -> Seq<EventV> {
    Seq::new(items.len(), |i: int| item_event(items[i]))
}

/// Items that stand for themselves.
pub open spec fn items_wf(items: Seq<VtItem>) -> bool {
    forall|i: int| 0 <= i < items.len() ==> item_wf(#[trigger] items[i])
}

/// One step of writing out a screen.
pub enum PaintOp {
    /// A character.
    Print(char),
    /// Backspace.
    Back,
    /// Carriage return.
    Return,
    /// Line feed.
    Feed,
    /// Set attributes.
    Sgr(Seq<Seq<u16>>),
    /// Move the cursor to a zero-based row and column.
    MoveTo(int, int),
    /// Move the cursor right.
    Forward(int),
    /// Erase characters at the cursor.
    EraseChars(int),
    /// Erase to the end of the row.
    EraseLine,
    /// Erase to the end of the screen.
    EraseDisplay,
    /// Switch a DEC private mode.
    Mode(u16, bool),
    /// Set the cursor style.
    Style(u16),
    /// Save the cursor.
    Save,
    /// Restore the cursor.
    Restore,
    /// Switch the application keypad.
    Keypad(bool),
}

/// A CSI sequence with the given parameters.
pub open spec fn csi_item(params: Seq<Seq<u16>>, action: char) -> VtItem {
    VtItem::Csi { private: false, params, space: false, action }
}

/// The parameters for a count: none for one.
pub open spec fn count_params(n: int) -> Seq<Seq<u16>> {
    if n == 1 {
        seq![]
    } else {
        seq![seq![n as u16]]
    }
}

/// The parameters for a position: none for home, else one-based.
pub open spec fn position_params(row: int, col: int) -> Seq<Seq<u16>> {
    if row == 0 && col == 0 {
        seq![]
    } else {
        seq![seq![(row + 1) as u16], seq![(col + 1) as u16]]
    }
}

/// The item of a step.
pub open spec fn paint_item(op: PaintOp) -> VtItem {
    match op {
        PaintOp::Print(ch) => VtItem::Text(ch),
        PaintOp::Back => VtItem::Control(0x08),
        PaintOp::Return => VtItem::Control(0x0d),
        PaintOp::Feed => VtItem::Control(0x0a),
        PaintOp::Sgr(params) => csi_item(params, 'm'),
        PaintOp::MoveTo(row, col) => csi_item(position_params(row, col), 'H'),
        PaintOp::Forward(n) => csi_item(count_params(n), 'C'),
        PaintOp::EraseChars(n) => csi_item(count_params(n), 'X'),
        PaintOp::EraseLine => csi_item(seq![], 'K'),
        PaintOp::EraseDisplay => csi_item(seq![], 'J'),
        PaintOp::Mode(mode, on) => VtItem::Csi {
            private: true,
            params: seq![seq![mode]],
            space: false,
            action: if on {
                'h'
            } else {
                'l'
            },
        },
        PaintOp::Style(style) => VtItem::Csi {
            private: false,
            params: seq![seq![style]],
            space: true,
            action: 'q',
        },
        PaintOp::Save => VtItem::Esc(0x37),
        PaintOp::Restore => VtItem::Esc(0x38),
        PaintOp::Keypad(on) => VtItem::Esc(
            if on {
                0x3d
            } else {
                0x3e
            },
        ),
    }
}

/// Steps whose numbers are within range.
pub open spec fn paint_wf(op: PaintOp) -> bool {
    match op {
        PaintOp::Print(ch) => !is_vt_control(ch),
        PaintOp::Sgr(params) => item_wf(csi_item(params, 'm')),
        PaintOp::MoveTo(row, col) => 0 <= row < u16::MAX && 0 <= col < u16::MAX,
        PaintOp::Forward(n) => 1 <= n <= u16::MAX,
        PaintOp::EraseChars(n) => 1 <= n <= u16::MAX,
        _ => true,
    }
}

/// The items of steps.
pub open spec fn paint_items(ops: Seq<PaintOp>) -> Seq<VtItem> {
    Seq::new(ops.len(), |i: int| paint_item(ops[i]))
}

/// The bytes of steps.
pub open spec fn paint_bytes(ops: Seq<PaintOp>) -> Seq<u8> {
    items_bytes(paint_items(ops))
}

/// Steps whose numbers are within range.
pub open spec fn paints_wf(ops: Seq<PaintOp>) -> bool {
    forall|i: int| 0 <= i < ops.len() ==> paint_wf(#[trigger] ops[i])
}

/// The event that the parser makes of a step.
pub open spec fn paint_event(op: PaintOp) -> EventV {
    item_event(paint_item(op))
}

/// The events that the parser makes of steps.
pub open spec fn paint_events(ops: Seq<PaintOp>) -> Seq<EventV> {
    items_events(paint_items(ops))
}

/// The bytes of steps are those of the first steps and then of the others.
pub(crate) proof fn paint_bytes_concat(a: Seq<PaintOp>, b: Seq<PaintOp>)
    ensures
        paint_bytes(a + b) == paint_bytes(a) + paint_bytes(b),
    decreases b.len(),
{
    if b.len() == 0 {
        assert(a + b =~= a);
        assert(paint_bytes(b) =~= Seq::empty());
        assert(paint_bytes(a) + paint_bytes(b) =~= paint_bytes(a));
    } else {
        let c = b.drop_last();
        paint_bytes_concat(a, c);
        assert(paint_items(a + b).drop_last() =~= paint_items(a + c));
        assert(paint_items(b).drop_last() =~= paint_items(c));
        assert(paint_items(a + b).last() == paint_items(b).last());
        assert(paint_bytes(a + b) =~= paint_bytes(a) + paint_bytes(b));
    }
}

/// The bytes of one step.
pub(crate) proof fn paint_bytes_one(op: PaintOp)
    ensures
        paint_bytes(seq![op]) == item_bytes(paint_item(op)),
{
    let items = paint_items(seq![op]);
    assert(items.drop_last() =~= Seq::empty());
    assert(items.last() == paint_item(op));
    assert(items_bytes(items.drop_last()) =~= Seq::<u8>::empty());
    assert(paint_bytes(seq![op]) =~= item_bytes(paint_item(op)));
}

/// The bytes of no steps.
pub(crate) proof fn paint_bytes_none()
    ensures
        paint_bytes(Seq::empty()) == Seq::<u8>::empty(),
{
}

/// Steps within range make items that stand for themselves.
pub(crate) proof fn paints_make_items(ops: Seq<PaintOp>)
    requires
        paints_wf(ops),
    ensures
        items_wf(paint_items(ops)),
{
    assert forall|i: int| 0 <= i < ops.len() implies item_wf(#[trigger] paint_items(ops)[i]) by {
        assert(paint_wf(ops[i]));
        value_count_small(ops[i]);
    }
}

proof fn value_count_small(op: PaintOp)
    requires
        paint_wf(op),
    ensures
        item_wf(paint_item(op)),
{
    reveal_with_fuel(value_count, 3);
    match op {
        PaintOp::MoveTo(row, col) => {
            let p = position_params(row, col);
            if p.len() > 0 {
                assert(p.drop_last() =~= seq![seq![(row + 1) as u16]]);
                assert(p.drop_last().drop_last() =~= Seq::empty());
            }
        },
        PaintOp::Forward(n) => {
            assert(count_params(n).len() > 0 ==> count_params(n).drop_last() =~= Seq::empty());
        },
        PaintOp::EraseChars(n) => {
            assert(count_params(n).len() > 0 ==> count_params(n).drop_last() =~= Seq::empty());
        },
        PaintOp::Mode(mode, on) => {
            assert(seq![seq![mode]].drop_last() =~= Seq::empty());
        },
        PaintOp::Style(style) => {
            assert(seq![seq![style]].drop_last() =~= Seq::empty());
        },
        _ => {},
    }
}

} // verus!
