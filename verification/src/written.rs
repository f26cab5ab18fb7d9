//! The bytes in which a grid writes its state out, step by step, and what they
//! mean to the terminal that reads them.

use crate::bytes::decimal;
use crate::ops::{paint_bytes, paint_bytes_concat, paint_bytes_one, paint_event, PaintOp};
use crate::state::{params_bytes, subparam_bytes, EventV};
use vstd::prelude::*;
use vstd::utf8::encode_utf8;

verus! {

/// Steps are written one after the other.
pub proof fn steps_are_written_in_order(a: Seq<PaintOp>, b: Seq<PaintOp>)
    ensures
        paint_bytes(a + b) == paint_bytes(a) + paint_bytes(b),
        paint_bytes(Seq::empty()) == Seq::<u8>::empty(),
{
    paint_bytes_concat(a, b);
}

/// Text is written in UTF-8, and the controls and short escapes as themselves.
pub proof fn short_steps_are_written(ch: char)
    ensures
        paint_bytes(seq![PaintOp::Print(ch)]) == encode_utf8(seq![ch]),
        paint_event(PaintOp::Print(ch)) == EventV::Print(ch),
        paint_bytes(seq![PaintOp::Back]) == seq![0x08u8],
        paint_event(PaintOp::Back) == EventV::Execute(0x08),
        paint_bytes(seq![PaintOp::Return]) == seq![0x0du8],
        paint_event(PaintOp::Return) == EventV::Execute(0x0d),
        paint_bytes(seq![PaintOp::Feed]) == seq![0x0au8],
        paint_event(PaintOp::Feed) == EventV::Execute(0x0a),
        paint_bytes(seq![PaintOp::Save]) == seq![0x1bu8, 0x37],
        paint_event(PaintOp::Save) == (EventV::Esc { byte: 0x37 }),
        paint_bytes(seq![PaintOp::Restore]) == seq![0x1bu8, 0x38],
        paint_event(PaintOp::Restore) == (EventV::Esc { byte: 0x38 }),
        paint_bytes(seq![PaintOp::Keypad(true)]) == seq![0x1bu8, 0x3d],
        paint_event(PaintOp::Keypad(true)) == (EventV::Esc { byte: 0x3d }),
        paint_bytes(seq![PaintOp::Keypad(false)]) == seq![0x1bu8, 0x3e],
        paint_event(PaintOp::Keypad(false)) == (EventV::Esc { byte: 0x3e }),
{
    paint_bytes_one(PaintOp::Print(ch));
    paint_bytes_one(PaintOp::Back);
    paint_bytes_one(PaintOp::Return);
    paint_bytes_one(PaintOp::Feed);
    paint_bytes_one(PaintOp::Save);
    paint_bytes_one(PaintOp::Restore);
    paint_bytes_one(PaintOp::Keypad(true));
    paint_bytes_one(PaintOp::Keypad(false));
}

proof fn one_param(n: u16)
    ensures
        params_bytes(seq![seq![n]]) == decimal(n as nat),
        params_bytes(Seq::empty()) == Seq::<u8>::empty(),
        subparam_bytes(seq![n]) == decimal(n as nat),
{
}

/// Moves to a position and to the right, and erases, are written with their
/// one-based position or their count; home, and a count of one, need no number.
pub proof fn moves_and_erases_are_written(row: int, col: int, n: int)
    requires
        0 <= row < 65535,
        0 <= col < 65535,
        1 <= n <= 65535,
    ensures
        paint_bytes(seq![PaintOp::MoveTo(0, 0)]) == seq![0x1bu8, 0x5b, 0x48],
        row > 0 || col > 0 ==> paint_bytes(seq![PaintOp::MoveTo(row, col)]) == seq![0x1bu8, 0x5b]
            + decimal((row + 1) as nat) + seq![0x3bu8] + decimal((col + 1) as nat) + seq![0x48u8],
        n > 1 ==> paint_bytes(seq![PaintOp::Forward(n)]) == seq![0x1bu8, 0x5b] + decimal(n as nat)
            + seq![0x43u8],
        n > 1 ==> paint_bytes(seq![PaintOp::EraseChars(n)]) == seq![0x1bu8, 0x5b] + decimal(
            n as nat,
        ) + seq![0x58u8],
        paint_bytes(seq![PaintOp::Forward(1)]) == seq![0x1bu8, 0x5b, 0x43],
        paint_bytes(seq![PaintOp::EraseChars(1)]) == seq![0x1bu8, 0x5b, 0x58],
        paint_bytes(seq![PaintOp::EraseLine]) == seq![0x1bu8, 0x5b, 0x4b],
        paint_bytes(seq![PaintOp::EraseDisplay]) == seq![0x1bu8, 0x5b, 0x4a],
{
    let e = Seq::<u8>::empty();
    let open = seq![0x1bu8, 0x5b];
    one_param(n as u16);
    paint_bytes_one(PaintOp::MoveTo(0, 0));
    assert(open + e + e + e + seq!['H' as u8] =~= seq![0x1bu8, 0x5b, 0x48]);
    paint_bytes_one(PaintOp::MoveTo(row, col));
    if row > 0 || col > 0 {
        let p = seq![seq![(row + 1) as u16], seq![(col + 1) as u16]];
        assert(p.drop_last() =~= seq![seq![(row + 1) as u16]]);
        assert(p.last() == seq![(col + 1) as u16]);
        one_param((row + 1) as u16);
        one_param((col + 1) as u16);
        let a = decimal((row + 1) as nat);
        let b = decimal((col + 1) as nat);
        assert(params_bytes(p) =~= a + seq![0x3bu8] + b);
        assert(open + e + params_bytes(p) + e + seq!['H' as u8] =~= open + a + seq![0x3bu8] + b
            + seq![0x48u8]);
    }
    paint_bytes_one(PaintOp::Forward(n));
    paint_bytes_one(PaintOp::EraseChars(n));
    if n > 1 {
        let d = decimal(n as nat);
        assert(open + e + d + e + seq!['C' as u8] =~= open + d + seq![0x43u8]);
        assert(open + e + d + e + seq!['X' as u8] =~= open + d + seq![0x58u8]);
    }
    paint_bytes_one(PaintOp::Forward(1));
    assert(open + e + e + e + seq!['C' as u8] =~= seq![0x1bu8, 0x5b, 0x43]);
    paint_bytes_one(PaintOp::EraseChars(1));
    assert(open + e + e + e + seq!['X' as u8] =~= seq![0x1bu8, 0x5b, 0x58]);
    paint_bytes_one(PaintOp::EraseLine);
    assert(open + e + e + e + seq!['K' as u8] =~= seq![0x1bu8, 0x5b, 0x4b]);
    paint_bytes_one(PaintOp::EraseDisplay);
    assert(open + e + e + e + seq!['J' as u8] =~= seq![0x1bu8, 0x5b, 0x4a]);
}

/// Attributes, modes and the cursor style are written as their sequences.
pub proof fn settings_are_written(params: Seq<Seq<u16>>, mode: u16, style: u16)
    ensures
        paint_bytes(seq![PaintOp::Sgr(params)]) == seq![0x1bu8, 0x5b] + params_bytes(params) + seq![
            0x6du8,
        ],
        paint_bytes(seq![PaintOp::Mode(mode, true)]) == seq![0x1bu8, 0x5b, 0x3f] + decimal(
            mode as nat,
        ) + seq![0x68u8],
        paint_bytes(seq![PaintOp::Mode(mode, false)]) == seq![0x1bu8, 0x5b, 0x3f] + decimal(
            mode as nat,
        ) + seq![0x6cu8],
        paint_bytes(seq![PaintOp::Style(style)]) == seq![0x1bu8, 0x5b] + decimal(style as nat)
            + seq![0x20u8, 0x71],
{
    let e = Seq::<u8>::empty();
    let open = seq![0x1bu8, 0x5b];
    let p = params_bytes(params);
    paint_bytes_one(PaintOp::Sgr(params));
    assert(open + e + p + e + seq!['m' as u8] =~= open + p + seq![0x6du8]);
    one_param(mode);
    let d = decimal(mode as nat);
    paint_bytes_one(PaintOp::Mode(mode, true));
    assert(open + seq![0x3fu8] + d + e + seq!['h' as u8] =~= seq![0x1bu8, 0x5b, 0x3f] + d + seq![
        0x68u8,
    ]);
    paint_bytes_one(PaintOp::Mode(mode, false));
    assert(open + seq![0x3fu8] + d + e + seq!['l' as u8] =~= seq![0x1bu8, 0x5b, 0x3f] + d + seq![
        0x6cu8,
    ]);
    one_param(style);
    let s = decimal(style as nat);
    paint_bytes_one(PaintOp::Style(style));
    assert(open + e + s + seq![0x20u8] + seq!['q' as u8] =~= open + s + seq![0x20u8, 0x71]);
}

/// What the sequences are read as.
pub proof fn sequences_are_read(
    row: int,
    col: int,
    n: int,
    params: Seq<Seq<u16>>,
    mode: u16,
    on: bool,
)
    requires
        0 <= row < 65535,
        0 <= col < 65535,
        1 <= n <= 65535,
    ensures
        paint_event(PaintOp::MoveTo(row, col)) == (EventV::Csi {
            params: if row == 0 && col == 0 {
                seq![seq![0u16]]
            } else {
                seq![seq![(row + 1) as u16], seq![(col + 1) as u16]]
            },
            intermediates: Seq::empty(),
            action: 'H',
        }),
        paint_event(PaintOp::Forward(n)) == (EventV::Csi {
            params: seq![
                seq![
                    if n == 1 {
                        0u16
                    } else {
                        n as u16
                    },
                ],
            ],
            intermediates: Seq::empty(),
            action: 'C',
        }),
        paint_event(PaintOp::EraseChars(n)) == (EventV::Csi {
            params: seq![
                seq![
                    if n == 1 {
                        0u16
                    } else {
                        n as u16
                    },
                ],
            ],
            intermediates: Seq::empty(),
            action: 'X',
        }),
        paint_event(PaintOp::EraseLine) == bare_csi_of('K'),
        paint_event(PaintOp::EraseDisplay) == bare_csi_of('J'),
        params.len() > 0 ==> paint_event(PaintOp::Sgr(params)) == (EventV::Csi {
            params,
            intermediates: Seq::empty(),
            action: 'm',
        }),
        paint_event(PaintOp::Sgr(Seq::empty())) == bare_csi_of('m'),
        paint_event(PaintOp::Mode(mode, on)) == (EventV::Csi {
            params: seq![seq![mode]],
            intermediates: seq![0x3fu8],
            action: if on {
                'h'
            } else {
                'l'
            },
        }),
        paint_event(PaintOp::Style(mode)) == (EventV::Csi {
            params: seq![seq![mode]],
            intermediates: seq![0x20u8],
            action: 'q',
        }),
{
}

/// A CSI sequence without parameters is read as one with a single zero.
pub open spec fn bare_csi_of(action: char) -> EventV {
    EventV::Csi { params: seq![seq![0u16]], intermediates: Seq::empty(), action }
}

} // verus!
