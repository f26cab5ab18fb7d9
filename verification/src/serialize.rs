//! Replayable serialization of the grid state to terminal byte streams.
//!
//! What the byte streams reproduce is said in [`crate::paint`], and proved in
//! [`crate::roundtrip`].

use crate::bytes::{decimal, push_bytes, push_text, write_u16};
use crate::cell::{blank_cell, Attrs, Cell, Color, UnderlineStyle};
use crate::grid::{ends_in_joiner, DamageGrid};
use crate::model::{blank_cells, ends_with_zwj, RowWrap};
use crate::ops::{
    count_params, csi_item, item_bytes, paint_bytes, paint_bytes_concat, paint_bytes_none,
    paint_bytes_one, paint_item, paints_wf, position_params, PaintOp,
};
use crate::paint::{
    attrs_ops, autowrap_off, background_params, blink_params, cluster_ending_at, column_painted,
    columns_painted, content_moved, content_written, contents_diff_ops, contents_ops, continues,
    cursor_restored, diff_job, diffable, exclusive_mode_ops, foreground_params, fresh_job,
    full_paint, input_mode_diff_ops, input_mode_ops, intensity_params, join_hazard, jumped,
    keypad_diff_ops, long_color, mode_diff_ops, move_ops, moved, one, paint_finished, parked_above,
    print_op, repaint, row_entered, row_painted, row_reentered, rows_painted, rows_repainted,
    run_flushed, same_cells, same_state, sgr_params, state_diff_ops, state_ops, style_diff_ops,
    switch_params, text_ops, underline_color_params, underline_params, unlinked_row, with_pen,
    wrap_hazard, PaintV, PosV, RowJob, RunV,
};
use crate::perform::{mouse_encoding_number, mouse_mode_number};
use crate::state::{grid_wf, params_bytes, subparam_bytes};
use crate::roundtrip::{
    contents_diff_ops_wf, contents_ops_wf, input_mode_diff_ops_wf, input_mode_ops_wf,
};
use crate::write::cells_view;
use vstd::prelude::*;
use vstd::utf8::encode_utf8;

verus! {

// ── Terminal byte writers ───────────────────────────────────────────────────

/// CSI without parameters.
fn write_csi(out: &mut Vec<u8>, action: u8)
    requires
        0x40 <= action <= 0x7e,
    ensures
        final(out)@ == old(out)@ + item_bytes(csi_item(seq![], action as char)),
{
    out.push(0x1b);
    out.push(0x5b);
    out.push(action);
    proof {
        char_back(action);
        assert(params_bytes(Seq::<Seq<u16>>::empty()) =~= Seq::<u8>::empty());
        assert(out@ =~= old(out)@ + item_bytes(csi_item(seq![], action as char)));
    }
}

proof fn char_back(byte: u8)
    requires
        byte < 0x80,
    ensures
        (byte as char) as u8 == byte,
{
}

proof fn one_param_bytes(n: u16)
    ensures
        params_bytes(seq![seq![n]]) == decimal(n as nat),
{
    assert(seq![seq![n]][0] == seq![n]);
}

proof fn two_param_bytes(a: u16, b: u16)
    ensures
        params_bytes(seq![seq![a], seq![b]]) == decimal(a as nat).push(0x3b) + decimal(b as nat),
{
    let p = seq![seq![a], seq![b]];
    assert(p.drop_last() =~= seq![seq![a]]);
    one_param_bytes(a);
    assert(p.last() == seq![b]);
}

/// CSI with one parameter, left out where it is one.
fn write_csi_count(out: &mut Vec<u8>, n: u16, action: u8)
    requires
        0x40 <= action <= 0x7e,
    ensures
        final(out)@ == old(out)@ + item_bytes(csi_item(count_params(n as int), action as char)),
{
    if n == 1 {
        write_csi(out, action);
    } else {
        out.push(0x1b);
        out.push(0x5b);
        write_u16(out, n);
        out.push(action);
        proof {
            char_back(action);
            one_param_bytes(n);
            assert(out@ =~= old(out)@ + item_bytes(
                csi_item(count_params(n as int), action as char),
            ));
        }
    }
}

/// Switches a DEC private mode.
fn write_mode(out: &mut Vec<u8>, mode: u16, on: bool)
    ensures
        final(out)@ == old(out)@ + paint_bytes(seq![PaintOp::Mode(mode, on)]),
{
    out.push(0x1b);
    out.push(0x5b);
    out.push(0x3f);
    write_u16(out, mode);
    out.push(
        if on {
            0x68
        } else {
            0x6c
        },
    );
    proof {
        one_param_bytes(mode);
        paint_bytes_one(PaintOp::Mode(mode, on));
        assert(out@ =~= old(out)@ + item_bytes(paint_item(PaintOp::Mode(mode, on))));
    }
}

fn write_keypad(out: &mut Vec<u8>, application: bool)
    ensures
        final(out)@ == old(out)@ + paint_bytes(seq![PaintOp::Keypad(application)]),
{
    out.push(0x1b);
    out.push(
        if application {
            0x3d
        } else {
            0x3e
        },
    );
    proof {
        paint_bytes_one(PaintOp::Keypad(application));
        assert(out@ =~= old(out)@ + item_bytes(paint_item(PaintOp::Keypad(application))));
    }
}

fn write_cursor_style(out: &mut Vec<u8>, style: u16)
    ensures
        final(out)@ == old(out)@ + paint_bytes(seq![PaintOp::Style(style)]),
{
    out.push(0x1b);
    out.push(0x5b);
    write_u16(out, style);
    out.push(0x20);
    out.push(0x71);
    proof {
        one_param_bytes(style);
        paint_bytes_one(PaintOp::Style(style));
        assert(out@ =~= old(out)@ + item_bytes(paint_item(PaintOp::Style(style))));
    }
}

// ── SGR ─────────────────────────────────────────────────────────────────────

/// A run of SGR parameters; subparameters (styled underlines) use `:`.
struct SgrBuf {
    bytes: Vec<u8>,
    first: bool,
    params: Ghost<Seq<Seq<u16>>>,
}

impl SgrBuf {
    spec fn list(self) -> Seq<Seq<u16>> {
        self.params@
    }

    spec fn wf(self) -> bool {
        &&& self.bytes@ == params_bytes(self.params@)
        &&& self.first == (self.params@.len() == 0)
    }

    fn new() -> (r: Self)
        ensures
            r.wf(),
            r.list() == Seq::<Seq<u16>>::empty(),
    {
        let r = SgrBuf { bytes: Vec::new(), first: true, params: Ghost(Seq::empty()) };
        assert(r.bytes@ =~= Seq::<u8>::empty());
        r
    }

    fn separate(&mut self)
        requires
            old(self).wf(),
        ensures
            final(self).bytes@ == if old(self).list().len() == 0 {
                Seq::<u8>::empty()
            } else {
                params_bytes(old(self).list()).push(0x3b)
            },
            !final(self).first,
            final(self).params == old(self).params,
    {
        if self.first {
            self.first = false;
        } else {
            self.bytes.push(0x3b);
        }
    }

    /// A parameter with one value.
    fn param(&mut self, n: u16)
        requires
            old(self).wf(),
        ensures
            final(self).wf(),
            final(self).list() == old(self).list() + one(n as int),
    {
        let ghost before = self.list();
        self.separate();
        write_u16(&mut self.bytes, n);
        self.params = Ghost(before + one(n as int));
        proof {
            let now = before + one(n as int);
            assert(now.drop_last() =~= before);
            assert(now.last() == seq![n]);
            if before.len() == 0 {
                assert(now[0] == seq![n]);
            }
            assert(self.bytes@ =~= params_bytes(now));
        }
    }

    /// A parameter with two values.
    fn pair(&mut self, a: u16, b: u16)
        requires
            old(self).wf(),
        ensures
            final(self).wf(),
            final(self).list() == old(self).list() + seq![seq![a, b]],
    {
        let ghost before = self.list();
        self.separate();
        write_u16(&mut self.bytes, a);
        self.bytes.push(0x3a);
        write_u16(&mut self.bytes, b);
        self.params = Ghost(before + seq![seq![a, b]]);
        proof {
            let now = before + seq![seq![a, b]];
            let pair = seq![a, b];
            assert(now.drop_last() =~= before);
            assert(now.last() == pair);
            reveal_with_fuel(subparam_bytes, 2);
            assert(pair.drop_last() =~= seq![a]);
            assert(subparam_bytes(pair) =~= decimal(a as nat).push(0x3a) + decimal(b as nat));
            if before.len() == 0 {
                assert(now[0] == pair);
            }
            assert(self.bytes@ =~= params_bytes(now));
        }
    }

    /// A color in the long form.
    fn long(&mut self, code: u16, color: Color)
        requires
            old(self).wf(),
        ensures
            final(self).wf(),
            final(self).list() == old(self).list() + long_color(code as int, color),
    {
        let ghost before = self.list();
        match color {
            Color::Default => {},
            Color::Idx(i) => {
                self.param(code);
                self.param(5);
                self.param(i as u16);
            },
            Color::Rgb(r, g, b) => {
                self.param(code);
                self.param(2);
                self.param(r as u16);
                self.param(g as u16);
                self.param(b as u16);
            },
        }
        assert(self.list() =~= before + long_color(code as int, color));
    }

    fn switch(&mut self, target: bool, prev: bool, on: u16, off: u16)
        requires
            old(self).wf(),
        ensures
            final(self).wf(),
            final(self).list() == old(self).list() + switch_params(
                target,
                prev,
                on as int,
                off as int,
            ),
    {
        proof {
            reveal(switch_params);
        }
        let ghost before = self.list();
        if target != prev {
            self.param(
                if target {
                    on
                } else {
                    off
                },
            );
        }
        assert(self.list() =~= before + switch_params(target, prev, on as int, off as int));
    }

    fn foreground(&mut self, target: &Attrs, prev: &Attrs)
        requires
            old(self).wf(),
        ensures
            final(self).wf(),
            final(self).list() == old(self).list() + foreground_params(*target, *prev),
    {
        proof {
            reveal(foreground_params);
        }
        let ghost before = self.list();
        if target.foreground != prev.foreground {
            match target.foreground {
                Color::Default => self.param(39),
                Color::Idx(i) => {
                    if i < 8 {
                        self.param(i as u16 + 30);
                    } else if i < 16 {
                        self.param(i as u16 + 82);
                    } else {
                        self.long(38, target.foreground);
                    }
                },
                Color::Rgb(..) => self.long(38, target.foreground),
            }
        }
        assert(self.list() =~= before + foreground_params(*target, *prev));
    }

    fn background(&mut self, target: &Attrs, prev: &Attrs)
        requires
            old(self).wf(),
        ensures
            final(self).wf(),
            final(self).list() == old(self).list() + background_params(*target, *prev),
    {
        proof {
            reveal(background_params);
        }
        let ghost before = self.list();
        if target.background != prev.background {
            match target.background {
                Color::Default => self.param(49),
                Color::Idx(i) => {
                    if i < 8 {
                        self.param(i as u16 + 40);
                    } else if i < 16 {
                        self.param(i as u16 + 92);
                    } else {
                        self.long(48, target.background);
                    }
                },
                Color::Rgb(..) => self.long(48, target.background),
            }
        }
        assert(self.list() =~= before + background_params(*target, *prev));
    }

    fn intensity(&mut self, target: &Attrs, prev: &Attrs)
        requires
            old(self).wf(),
        ensures
            final(self).wf(),
            final(self).list() == old(self).list() + intensity_params(*target, *prev),
    {
        proof {
            reveal(intensity_params);
        }
        let ghost before = self.list();
        if target.bold != prev.bold || target.dim != prev.dim {
            if target.bold && target.dim {
                self.param(1);
                self.param(2);
            } else {
                self.param(22);
                if target.bold {
                    self.param(1);
                } else if target.dim {
                    self.param(2);
                }
            }
        }
        assert(self.list() =~= before + intensity_params(*target, *prev));
    }

    fn underline(&mut self, target: &Attrs, prev: &Attrs)
        requires
            old(self).wf(),
        ensures
            final(self).wf(),
            final(self).list() == old(self).list() + underline_params(*target, *prev),
    {
        proof {
            reveal(underline_params);
        }
        let ghost before = self.list();
        if target.underline_style != prev.underline_style {
            match target.underline_style {
                UnderlineStyle::Off => self.param(24),
                UnderlineStyle::Single => self.param(4),
                UnderlineStyle::Double => self.pair(4, 2),
                UnderlineStyle::Curly => self.pair(4, 3),
                UnderlineStyle::Dotted => self.pair(4, 4),
                UnderlineStyle::Dashed => self.pair(4, 5),
            }
        }
        assert(self.list() =~= before + underline_params(*target, *prev));
    }

    fn underline_color(&mut self, target: &Attrs, prev: &Attrs)
        requires
            old(self).wf(),
        ensures
            final(self).wf(),
            final(self).list() == old(self).list() + underline_color_params(*target, *prev),
    {
        proof {
            reveal(underline_color_params);
        }
        let ghost before = self.list();
        if target.underline_color != prev.underline_color {
            if target.underline_color == Color::Default {
                self.param(59);
            } else {
                self.long(58, target.underline_color);
            }
        }
        assert(self.list() =~= before + underline_color_params(*target, *prev));
    }

    fn blink(&mut self, target: &Attrs, prev: &Attrs)
        requires
            old(self).wf(),
        ensures
            final(self).wf(),
            final(self).list() == old(self).list() + blink_params(*target, *prev),
    {
        proof {
            reveal(blink_params);
        }
        let ghost before = self.list();
        if target.slow_blink != prev.slow_blink || target.rapid_blink != prev.rapid_blink {
            if prev.slow_blink || prev.rapid_blink {
                self.param(25);
            }
            if target.slow_blink {
                self.param(5);
            }
            if target.rapid_blink {
                self.param(6);
            }
        }
        assert(self.list() =~= before + blink_params(*target, *prev));
    }

    /// Everything in which `target` differs from `prev`.
    fn diff(target: &Attrs, prev: &Attrs) -> (r: Self)
        ensures
            r.wf(),
            r.list() == sgr_params(*target, *prev),
    {
        let mut sgr = SgrBuf::new();
        sgr.foreground(target, prev);
        assert(sgr.list() =~= foreground_params(*target, *prev));
        sgr.background(target, prev);
        sgr.intensity(target, prev);
        sgr.switch(target.italic, prev.italic, 3, 23);
        sgr.underline(target, prev);
        sgr.underline_color(target, prev);
        sgr.switch(target.inverse, prev.inverse, 7, 27);
        sgr.switch(target.strikethrough, prev.strikethrough, 9, 29);
        sgr.blink(target, prev);
        sgr.switch(target.conceal, prev.conceal, 8, 28);
        sgr.switch(target.overline, prev.overline, 53, 55);
        sgr
    }
}

/// Emit the SGR sequence that turns `prev` into `target`.
///
/// Bold and dim are independent bits, but SGR 22 clears both, so clearing
/// either re-asserts the one that stays; slow and rapid blink are likewise
/// cleared together by 25.
fn write_attrs_diff(out: &mut Vec<u8>, target: &Attrs, prev: &Attrs)
    ensures
        final(out)@ == old(out)@ + paint_bytes(attrs_ops(*target, *prev)),
{
    if *target == *prev {
        proof {
            paint_bytes_none();
            assert(out@ =~= old(out)@ + paint_bytes(attrs_ops(*target, *prev)));
        }
        return ;
    }
    if *target == Attrs::default() {
        write_csi(out, 0x6d);
        proof {
            paint_bytes_one(PaintOp::Sgr(seq![]));
        }
        return ;
    }
    let sgr = SgrBuf::diff(target, prev);
    out.push(0x1b);
    out.push(0x5b);
    push_bytes(out, sgr.bytes.as_slice());
    out.push(0x6d);
    proof {
        paint_bytes_one(PaintOp::Sgr(sgr_params(*target, *prev)));
        assert(out@ =~= old(out)@ + item_bytes(csi_item(sgr_params(*target, *prev), 'm')));
    }
}

// ── Painting ────────────────────────────────────────────────────────────────

/// Cursor position during painting. `col` may be `== cols` (the pending-wrap
/// phantom column).
#[derive(Debug, Clone, Copy)]
struct Pos {
    row: u16,
    col: u16,
}

impl Pos {
    spec fn at(self) -> PosV {
        PosV { row: self.row as int, col: self.col as int }
    }
}

/// Bytes written so far, and the cursor and pen that they lead to.
struct Painter {
    out: Vec<u8>,
    pos: Pos,
    pen: Attrs,
    steps: Ghost<Seq<PaintOp>>,
}

/// The characters of a text, one after the other, are its UTF-8 bytes.
proof fn text_bytes(text: Seq<char>)
    ensures
        paint_bytes(text_ops(text)) == encode_utf8(text),
    decreases text.len(),
{
    if text.len() == 0 {
        paint_bytes_none();
        assert(encode_utf8(text) =~= Seq::<u8>::empty());
    } else {
        let start = text.drop_last();
        let ch = text.last();
        text_bytes(start);
        text_bytes_last(text_ops(start), ch);
        encode_push(start, ch);
        assert(start.push(ch) =~= text);
    }
}

proof fn text_bytes_last(ops: Seq<PaintOp>, ch: char)
    ensures
        paint_bytes(ops.push(print_op(ch))) == paint_bytes(ops) + encode_utf8(seq![ch]),
{
    assert(ops.push(print_op(ch)) =~= ops + seq![print_op(ch)]);
    paint_bytes_concat(ops, seq![print_op(ch)]);
    paint_bytes_one(print_op(ch));
}

proof fn encode_push(chars: Seq<char>, ch: char)
    ensures
        encode_utf8(chars.push(ch)) == encode_utf8(chars) + encode_utf8(seq![ch]),
    decreases chars.len(),
{
    if chars.len() == 0 {
        assert(chars.push(ch) =~= seq![ch]);
        assert(encode_utf8(chars) =~= Seq::<u8>::empty());
        assert(encode_utf8(chars) + encode_utf8(seq![ch]) =~= encode_utf8(seq![ch]));
    } else {
        let rest = chars.drop_first();
        encode_push(rest, ch);
        assert(chars.push(ch).drop_first() =~= rest.push(ch));
        assert(encode_utf8(chars.push(ch)) =~= encode_utf8(chars) + encode_utf8(seq![ch]));
    }
}

impl Painter {
    spec fn so_far(self) -> PaintV {
        PaintV { ops: self.steps@, pos: self.pos.at(), pen: self.pen }
    }

    spec fn wf(self) -> bool {
        self.out@ == paint_bytes(self.steps@)
    }

    /// Notes that bytes were written for one more step.
    proof fn lemma_step(before: Seq<PaintOp>, ops: Seq<PaintOp>)
        ensures
            paint_bytes(before + ops) == paint_bytes(before) + paint_bytes(ops),
    {
        paint_bytes_concat(before, ops);
    }

    fn set_pen(&mut self, target: &Attrs)
        requires
            old(self).wf(),
        ensures
            final(self).wf(),
            final(self).so_far() == with_pen(old(self).so_far(), *target),
    {
        let ghost before = self.so_far();
        write_attrs_diff(&mut self.out, target, &self.pen);
        proof {
            Painter::lemma_step(before.ops, attrs_ops(*target, before.pen));
        }
        self.steps = Ghost(before.ops + attrs_ops(*target, before.pen));
        self.pen = *target;
    }

    /// An absolute move, which also breaks a cluster's run of joins.
    fn jump(&mut self, to: Pos)
        requires
            old(self).wf(),
            to.row < u16::MAX,
            to.col < u16::MAX,
        ensures
            final(self).wf(),
            final(self).so_far() == jumped(old(self).so_far(), to.at()),
    {
        let ghost before = self.so_far();
        let ghost op = PaintOp::MoveTo(to.row as int, to.col as int);
        write_move_to(&mut self.out, to);
        proof {
            Painter::lemma_step(before.ops, seq![op]);
            assert(before.ops.push(op) =~= before.ops + seq![op]);
        }
        self.steps = Ghost(before.ops.push(op));
        self.pos = to;
    }

    /// The shortest of the moves that are used.
    fn move_to(&mut self, to: Pos)
        requires
            old(self).wf(),
            to.row < u16::MAX,
            to.col < u16::MAX,
        ensures
            final(self).wf(),
            final(self).so_far() == moved(old(self).so_far(), to.at()),
    {
        let ghost before = self.so_far();
        write_move_from_to(&mut self.out, self.pos, to);
        proof {
            Painter::lemma_step(before.ops, move_ops(before.pos, to.at()));
        }
        self.steps = Ghost(before.ops + move_ops(before.pos, to.at()));
        self.pos = to;
    }

    fn print(&mut self, text: &str)
        requires
            old(self).wf(),
        ensures
            final(self).wf(),
            final(self).pos == old(self).pos,
            final(self).pen == old(self).pen,
            final(self).steps@ == old(self).steps@ + text_ops(text@),
    {
        let ghost before = self.steps@;
        push_text(&mut self.out, text);
        proof {
            text_bytes(text@);
            Painter::lemma_step(before, text_ops(text@));
        }
        self.steps = Ghost(before + text_ops(text@));
    }

    /// A step without parameters: its bytes are given.
    fn raw(&mut self, bytes: &[u8], op: Ghost<PaintOp>)
        requires
            old(self).wf(),
            bytes@ == item_bytes(paint_item(op@)),
        ensures
            final(self).wf(),
            final(self).pos == old(self).pos,
            final(self).pen == old(self).pen,
            final(self).steps@ == old(self).steps@ + seq![op@],
    {
        let ghost before = self.steps@;
        push_bytes(&mut self.out, bytes);
        proof {
            paint_bytes_one(op@);
            Painter::lemma_step(before, seq![op@]);
        }
        self.steps = Ghost(before + seq![op@]);
    }

    fn back(&mut self)
        requires
            old(self).wf(),
        ensures
            final(self).wf(),
            final(self).pos == old(self).pos,
            final(self).pen == old(self).pen,
            final(self).steps@ == old(self).steps@ + seq![PaintOp::Back],
    {
        let bytes: [u8; 1] = [0x08];
        assert(bytes@ =~= item_bytes(paint_item(PaintOp::Back)));
        self.raw(&bytes, Ghost(PaintOp::Back));
    }

    fn save(&mut self)
        requires
            old(self).wf(),
        ensures
            final(self).wf(),
            final(self).pos == old(self).pos,
            final(self).pen == old(self).pen,
            final(self).steps@ == old(self).steps@ + seq![PaintOp::Save],
    {
        let bytes: [u8; 2] = [0x1b, 0x37];
        assert(bytes@ =~= item_bytes(paint_item(PaintOp::Save)));
        self.raw(&bytes, Ghost(PaintOp::Save));
    }

    fn restore(&mut self)
        requires
            old(self).wf(),
        ensures
            final(self).wf(),
            final(self).pos == old(self).pos,
            final(self).pen == old(self).pen,
            final(self).steps@ == old(self).steps@ + seq![PaintOp::Restore],
    {
        let bytes: [u8; 2] = [0x1b, 0x38];
        assert(bytes@ =~= item_bytes(paint_item(PaintOp::Restore)));
        self.raw(&bytes, Ghost(PaintOp::Restore));
    }

    fn erase_chars(&mut self, n: u16)
        requires
            old(self).wf(),
        ensures
            final(self).wf(),
            final(self).pos == old(self).pos,
            final(self).pen == old(self).pen,
            final(self).steps@ == old(self).steps@ + seq![PaintOp::EraseChars(n as int)],
    {
        let ghost before = self.steps@;
        let ghost op = PaintOp::EraseChars(n as int);
        write_csi_count(&mut self.out, n, 0x58);
        proof {
            paint_bytes_one(op);
            Painter::lemma_step(before, seq![op]);
        }
        self.steps = Ghost(before + seq![op]);
    }

    fn mode(&mut self, mode: u16, on: bool)
        requires
            old(self).wf(),
        ensures
            final(self).wf(),
            final(self).steps@ == old(self).steps@ + seq![PaintOp::Mode(mode, on)],
    {
        let ghost before = self.steps@;
        write_mode(&mut self.out, mode, on);
        proof {
            Painter::lemma_step(before, seq![PaintOp::Mode(mode, on)]);
        }
        self.steps = Ghost(before + seq![PaintOp::Mode(mode, on)]);
    }

    fn mode_diff(&mut self, mode: u16, now: bool, prev: bool)
        requires
            old(self).wf(),
        ensures
            final(self).wf(),
            final(self).steps@ == old(self).steps@ + mode_diff_ops(mode, now, prev),
    {
        proof {
            reveal(mode_diff_ops);
        }
        let ghost before = self.steps@;
        if now != prev {
            self.mode(mode, now);
        }
        assert(self.steps@ =~= before + mode_diff_ops(mode, now, prev));
    }

    /// Turns one of several exclusive modes into another.
    fn exclusive_mode(&mut self, mode: u16, prev: u16)
        requires
            old(self).wf(),
        ensures
            final(self).wf(),
            final(self).steps@ == old(self).steps@ + exclusive_mode_ops(mode, prev),
    {
        proof {
            reveal(exclusive_mode_ops);
        }
        let ghost before = self.steps@;
        if mode != prev {
            if mode == 0 {
                self.mode(prev, false);
            } else {
                self.mode(mode, true);
            }
        }
        assert(self.steps@ =~= before + exclusive_mode_ops(mode, prev));
    }

    fn keypad(&mut self, application: bool)
        requires
            old(self).wf(),
        ensures
            final(self).wf(),
            final(self).steps@ == old(self).steps@ + seq![PaintOp::Keypad(application)],
    {
        let ghost before = self.steps@;
        write_keypad(&mut self.out, application);
        proof {
            Painter::lemma_step(before, seq![PaintOp::Keypad(application)]);
        }
        self.steps = Ghost(before + seq![PaintOp::Keypad(application)]);
    }

    fn cursor_style(&mut self, style: u16)
        requires
            old(self).wf(),
        ensures
            final(self).wf(),
            final(self).steps@ == old(self).steps@ + seq![PaintOp::Style(style)],
    {
        let ghost before = self.steps@;
        write_cursor_style(&mut self.out, style);
        proof {
            Painter::lemma_step(before, seq![PaintOp::Style(style)]);
        }
        self.steps = Ghost(before + seq![PaintOp::Style(style)]);
    }

    /// Nothing written, with the cursor and pen of the destination.
    fn start(pos: Pos, pen: Attrs) -> (r: Self)
        ensures
            r.wf(),
            r.so_far() == (PaintV { ops: Seq::empty(), pos: pos.at(), pen }),
    {
        let r = Painter { out: Vec::new(), pos, pen, steps: Ghost(Seq::empty()) };
        proof {
            paint_bytes_none();
            assert(r.out@ =~= paint_bytes(r.steps@));
        }
        r
    }

    fn erase_line(&mut self)
        requires
            old(self).wf(),
        ensures
            final(self).wf(),
            final(self).pos == old(self).pos,
            final(self).pen == old(self).pen,
            final(self).steps@ == old(self).steps@ + seq![PaintOp::EraseLine],
    {
        let ghost before = self.steps@;
        write_csi(&mut self.out, 0x4b);
        proof {
            paint_bytes_one(PaintOp::EraseLine);
            Painter::lemma_step(before, seq![PaintOp::EraseLine]);
        }
        self.steps = Ghost(before + seq![PaintOp::EraseLine]);
    }
}

fn write_move_to(out: &mut Vec<u8>, pos: Pos)
    requires
        pos.row < u16::MAX,
        pos.col < u16::MAX,
    ensures
        final(out)@ == old(out)@ + paint_bytes(
            seq![PaintOp::MoveTo(pos.row as int, pos.col as int)],
        ),
{
    proof {
        paint_bytes_one(PaintOp::MoveTo(pos.row as int, pos.col as int));
    }
    if pos.row == 0 && pos.col == 0 {
        write_csi(out, 0x48);
    } else {
        out.push(0x1b);
        out.push(0x5b);
        write_u16(out, pos.row + 1);
        out.push(0x3b);
        write_u16(out, pos.col + 1);
        out.push(0x48);
        proof {
            two_param_bytes((pos.row + 1) as u16, (pos.col + 1) as u16);
            assert(out@ =~= old(out)@ + item_bytes(
                csi_item(position_params(pos.row as int, pos.col as int), 'H'),
            ));
        }
    }
}

fn write_move_from_to(out: &mut Vec<u8>, from: Pos, to: Pos)
    requires
        to.row < u16::MAX,
        to.col < u16::MAX,
    ensures
        final(out)@ == old(out)@ + paint_bytes(move_ops(from.at(), to.at())),
{
    if from.row < u16::MAX && to.row == from.row + 1 && to.col == 0 {
        out.push(0x0d);
        out.push(0x0a);
        proof {
            let a = seq![PaintOp::Return];
            let b = seq![PaintOp::Feed];
            paint_bytes_one(PaintOp::Return);
            paint_bytes_one(PaintOp::Feed);
            paint_bytes_concat(a, b);
            assert(a + b =~= move_ops(from.at(), to.at()));
            assert(out@ =~= old(out)@ + (item_bytes(paint_item(PaintOp::Return)) + item_bytes(
                paint_item(PaintOp::Feed),
            )));
        }
    } else if from.row == to.row && from.col < to.col {
        write_csi_count(out, to.col - from.col, 0x43);
        proof {
            paint_bytes_one(PaintOp::Forward(to.col - from.col));
        }
    } else if to.row != from.row || to.col != from.col {
        write_move_to(out, to);
    } else {
        proof {
            paint_bytes_none();
            assert(out@ =~= old(out)@ + paint_bytes(move_ops(from.at(), to.at())));
        }
    }
}

/// Whether the cluster whose last column is `col` ends with a joiner.
fn joiner_ending_at(cells: &[Cell], col: usize) -> (r: bool)
    requires
        col < cells@.len(),
    ensures
        r == ends_with_zwj(cluster_ending_at(cells_view(cells@), col as int).contents),
{
    let at: usize = if cells[col].is_wide_continuation && col > 0 {
        col - 1
    } else {
        col
    };
    ends_in_joiner(cells[at].contents())
}

/// Would a printable written at `col` of `row` join a ZWJ-final cluster to
/// its left? The serializer must break such joins with an explicit cursor
/// move (the join barrier only allows joining immediately after a print).
fn zwj_join_hazard(row: &[Cell], col: u16) -> (r: bool)
    requires
        col <= row@.len(),
    ensures
        r == join_hazard(cells_view(row@), col as int),
{
    col > 0 && joiner_ending_at(row, col as usize - 1)
}

/// The ZWJ hazard for a natural wrap crossing: a printable consumed by the
/// pending wrap would join the previous row's last cell when that cell's
/// cluster ends with a ZWJ.
fn zwj_wrap_hazard(prev_row: &[Cell]) -> (r: bool)
    ensures
        r == (prev_row@.len() > 0 && ends_with_zwj(
            cluster_ending_at(cells_view(prev_row@), prev_row@.len() - 1).contents,
        )),
{
    prev_row.len() > 0 && joiner_ending_at(prev_row, prev_row.len() - 1)
}

/// Shared row-painting context: the row being serialized, its wrap
/// relationship with the previous row, the previous row's cells (for
/// wrap-boundary ZWJ hazard checks), and what the destination shows in the row
/// (`None`: default blanks).
struct RowCtx<'a> {
    cells: &'a [Cell],
    shown: Option<&'a [Cell]>,
    prev_row: Option<&'a [Cell]>,
    row: u16,
    cols: u16,
    wrapping: bool,
}

impl<'a> RowCtx<'a> {
    spec fn job(self) -> RowJob {
        RowJob {
            row: self.row as int,
            cols: self.cols as int,
            wrapping: self.wrapping,
            above: match self.prev_row {
                Some(above) => Some(cells_view(above@)),
                None => None,
            },
            cells: cells_view(self.cells@),
            prev: match self.shown {
                Some(prev) => cells_view(prev@),
                None => blank_cells(self.cols as int, blank_cell()),
            },
        }
    }

    spec fn wf(self) -> bool {
        &&& self.row < u16::MAX
        &&& 1 <= self.cols
        &&& self.cells@.len() == self.cols
        &&& self.shown matches Some(prev) ==> prev@.len() == self.cols
    }

    fn wrap_hazard(&self) -> (r: bool)
        ensures
            r == wrap_hazard(self.job()),
    {
        match self.prev_row {
            Some(above) => zwj_wrap_hazard(above),
            None => false,
        }
    }

    fn parked_above(&self, painter: &Painter) -> (r: bool)
        ensures
            r == parked_above(painter.so_far(), self.job()),
    {
        painter.pos.row < self.row && painter.pos.row + 1 == self.row && painter.pos.col
            >= self.cols
    }

    /// Whether the destination shows the cell at `col` already.
    fn unchanged(&self, col: usize) -> (r: bool)
        requires
            self.wf(),
            col < self.cols,
        ensures
            r == (self.job().cells[col as int] == self.job().prev[col as int]),
    {
        match self.shown {
            Some(prev) => self.cells[col] == prev[col],
            None => self.cells[col] == Cell::default(),
        }
    }

    /// Emit the cursor move that positions the replay cursor at `col` before a
    /// content cell write. Keeps the natural wrap (no move bytes) when the
    /// previous row parked at the phantom column and this row continues the
    /// logical line; an explicit CUP when the wrap write would join a ZWJ-final
    /// cluster or when a cursor jog is needed to break the join barrier.
    fn write_content_move(&self, painter: &mut Painter, col: u16)
        requires
            self.wf(),
            old(painter).wf(),
            col < self.cols,
        ensures
            final(painter).wf(),
            final(painter).so_far() == content_moved(old(painter).so_far(), self.job(), col as int),
    {
        let to = Pos { row: self.row, col };
        if painter.pos.row != to.row || painter.pos.col != to.col {
            if self.wrapping && self.parked_above(painter) && col == 0 {
                if self.wrap_hazard() {
                    painter.jump(to);
                } else {
                    painter.pos = to;
                }
            } else {
                painter.move_to(to);
            }
        } else if zwj_join_hazard(self.cells, col) {
            painter.jump(to);
        }
    }

    fn write_content(&self, painter: &mut Painter, col: u16)
        requires
            self.wf(),
            old(painter).wf(),
            col < self.cols,
        ensures
            final(painter).wf(),
            final(painter).so_far() == content_written(
                old(painter).so_far(),
                self.job(),
                col as int,
            ),
    {
        let ghost before = painter.so_far();
        let cell = &self.cells[col as usize];
        assert(cell@ == self.job().cells[col as int]);
        self.write_content_move(painter, col);
        painter.set_pen(&cell.attrs);
        painter.print(cell.contents());
        let width: u16 = if cell.is_wide {
            2
        } else {
            1
        };
        painter.pos = Pos {
            row: self.row,
            col: if self.cols - col <= width {
                self.cols
            } else {
                col + width
            },
        };
        assert(painter.so_far() =~= content_written(before, self.job(), col as int));
    }

    /// Flush a pending erase run starting at the recorded column: move to the run
    /// start, switch to the run's (uniform blank) attributes, then erase — ECH up
    /// to `end_col` mid-row, or EL (clear to row end) for the trailing run.
    fn flush_erase_run(
        &self,
        painter: &mut Painter,
        erase: Option<(u16, Attrs)>,
        end_col: Option<u16>,
    )
        requires
            self.wf(),
            old(painter).wf(),
            erase matches Some(run) ==> run.0 < self.cols && (end_col matches Some(end) ==> run.0
                < end),
        ensures
            final(painter).wf(),
            final(painter).so_far() == run_flushed(
                old(painter).so_far(),
                self.row as int,
                run_of(erase),
                match end_col {
                    Some(end) => Some(end as int),
                    None => None,
                },
            ),
    {
        let ghost before = painter.so_far();
        if let Some((start, attrs)) = erase {
            painter.move_to(Pos { row: self.row, col: start });
            painter.set_pen(&attrs);
            let ghost middle = painter.so_far();
            match end_col {
                Some(end) => {
                    painter.erase_chars(end - start);
                    assert(painter.steps@ =~= middle.ops.push(
                        PaintOp::EraseChars(end as int - start as int),
                    ));
                },
                None => {
                    painter.erase_line();
                    assert(painter.steps@ =~= middle.ops.push(PaintOp::EraseLine));
                },
            }
        }
    }

    /// Paints one column, which is not the second column of a wide cell.
    fn write_column(
        &self,
        painter: &mut Painter,
        erase: Option<(u16, Attrs)>,
        col: u16,
    ) -> (r: Option<(u16, Attrs)>)
        requires
            self.wf(),
            old(painter).wf(),
            col < self.cols,
            erase matches Some(run) ==> run.0 < col,
        ensures
            final(painter).wf(),
            (final(painter).so_far(), run_of(r)) == column_painted(
                old(painter).so_far(),
                run_of(erase),
                self.job(),
                col as int,
            ),
            r matches Some(run) ==> run.0 <= col,
    {
        let cell = &self.cells[col as usize];
        assert(cell@ == self.job().cells[col as int]);
        let mut erase = erase;
        let flush = match &erase {
            Some(run) => cell.has_contents() || cell.attrs != run.1,
            None => false,
        };
        if flush {
            self.flush_erase_run(painter, erase, Some(col));
            erase = None;
        }
        if !self.unchanged(col as usize) {
            if cell.has_contents() {
                self.write_content(painter, col);
            } else if erase.is_none() {
                erase = Some((col, cell.attrs));
            }
        }
        erase
    }

    /// Paint one row's contents: blank-with-attributes runs are
    /// erased with ECH/EL (BCE), content cells are written with SGR diffs, and
    /// cursor moves are minimized (CRLF / move-right where possible), including
    /// natural-wrap continuation when the previous row parked at the phantom
    /// column.
    fn write_row(&self, painter: &mut Painter)
        requires
            self.wf(),
            old(painter).wf(),
        ensures
            final(painter).wf(),
            final(painter).so_far() == row_painted(old(painter).so_far(), self.job()),
    {
        let ghost before = painter.so_far();
        let ghost job = self.job();
        // A pending erase run: start column plus the uniform blank attributes.
        let mut erase: Option<(u16, Attrs)> = None;
        let mut col: u16 = 0;
        while col < self.cols
            invariant
                self.wf(),
                painter.wf(),
                job == self.job(),
                col <= self.cols,
                (painter.so_far(), run_of(erase)) == columns_painted(before, job, col as int),
                erase matches Some(run) ==> run.0 < col,
            decreases self.cols - col,
        {
            if col > 0 && self.cells[col as usize - 1].is_wide {
                assert(job.cells[col - 1].is_wide);
            } else {
                assert(col > 0 ==> !job.cells[col - 1].is_wide);
                erase = self.write_column(painter, erase, col);
            }
            col = col + 1;
        }
        self.flush_erase_run(painter, erase, None);
    }

    /// Enters a row that is painted over blanks. Performs a pending wrap into a
    /// row that starts blank with a space, and erases it.
    fn enter_row(&self, painter: &mut Painter)
        requires
            self.wf(),
            old(painter).wf(),
        ensures
            final(painter).wf(),
            final(painter).so_far() == row_entered(old(painter).so_far(), self.job()),
    {
        let ghost before = painter.so_far();
        let ghost job = self.job();
        let home = Pos { row: self.row, col: 0 };
        assert(self.cells@[0]@ == job.cells[0]);
        if self.wrapping && self.cells[0] == Cell::default() {
            if self.parked_above(painter) && !self.wrap_hazard() {
                painter.set_pen(&Attrs::default());
                let ghost middle = painter.so_far();
                painter.print(" ");
                painter.back();
                painter.erase_chars(1);
                painter.pos = home;
                proof {
                    reveal_strlit(" ");
                    assert(" "@ =~= seq![' ']);
                    space_text();
                    assert(painter.steps@ =~= middle.ops + seq![
                        PaintOp::Print(' '),
                        PaintOp::Back,
                        PaintOp::EraseChars(1),
                    ]);
                }
            } else {
                // Not actually parked (the previous row's tail was erased after
                // it wrapped), or the wrap write would join a ZWJ-final
                // cluster: position explicitly.
                painter.jump(home);
            }
        }
        assert(painter.so_far() =~= row_entered(before, job));
    }

    /// Enters a row that is painted over a previous state. Where the previous
    /// row now wraps into this one, performs the pending wrap by redrawing the
    /// first cell, then backs onto the row start.
    fn reenter_row(&self, painter: &mut Painter, prev_wrapping: bool)
        requires
            self.wf(),
            self.shown is Some,
            old(painter).wf(),
        ensures
            final(painter).wf(),
            final(painter).so_far() == row_reentered(
                old(painter).so_far(),
                self.job(),
                prev_wrapping,
            ),
    {
        let ghost before = painter.so_far();
        let ghost job = self.job();
        let first = &self.cells[0];
        assert(first@ == job.cells[0]);
        if self.wrapping && !prev_wrapping && self.unchanged(0) && self.parked_above(painter)
            && !self.wrap_hazard() {
            painter.set_pen(&first.attrs);
            let ghost middle = painter.so_far();
            let blank = !first.has_contents();
            if blank {
                painter.print(" ");
                proof {
                    reveal_strlit(" ");
                    assert(" "@ =~= seq![' ']);
                }
            } else {
                painter.print(first.contents());
            }
            painter.back();
            let ghost once = painter.steps@;
            if first.is_wide {
                painter.back();
            }
            let ghost twice = painter.steps@;
            if blank {
                painter.erase_chars(1);
            }
            painter.pos = Pos { row: self.row, col: 0 };
            proof {
                let none = Seq::<PaintOp>::empty();
                assert(once + none =~= once);
                assert(twice + none =~= twice);
            }
        }
        assert(painter.so_far() =~= row_reentered(before, job, prev_wrapping));
    }
}

proof fn space_text()
    ensures
        text_ops(seq![' ']) == seq![PaintOp::Print(' ')],
{
    assert(seq![' '].drop_last() =~= Seq::<char>::empty());
    assert(text_ops(seq![' '].drop_last()) =~= Seq::<PaintOp>::empty());
    assert(text_ops(seq![' ']) =~= seq![PaintOp::Print(' ')]);
}

/// The run that a start column and attributes stand for.
spec fn run_of(erase: Option<(u16, Attrs)>) -> Option<RunV> {
    match erase {
        Some(run) => Some(RunV { start: run.0 as int, attrs: run.1 }),
        None => None,
    }
}

// ── DamageGrid serialization API ────────────────────────────────────────────

impl DamageGrid {
    /// The visible screen's soft-wrap continuation flag for `row`
    /// (true = `row` continues the logical line of the row above).
    fn row_is_continuation(&self, row: u16) -> (r: bool)
        ensures
            r == continues(self@, row as int),
    {
        row > 0 && (row as usize) < self.screen.len() && self.screen[row as usize].wrap
            == RowWrap::Soft
    }

    /// The context for painting one row, over blanks or over a previous state.
    fn row_ctx<'a>(&'a self, row: u16, shown: Option<&'a [Cell]>) -> (r: RowCtx<'a>)
        requires
            grid_wf(self@),
            row < self.rows,
            shown matches Some(prev) ==> prev@.len() == self.cols,
        ensures
            r.wf(),
            r.shown == shown,
            r.job() == (RowJob {
                prev: match shown {
                    Some(prev) => cells_view(prev@),
                    None => blank_cells(self@.cols, blank_cell()),
                },
                ..fresh_job(self@, row as int)
            }),
    {
        let at: usize = row as usize;
        assert(self.screen@[at as int]@ == self@.screen[at as int]);
        let prev_row: Option<&[Cell]> = if row > 0 {
            assert(self.screen@[at - 1]@ == self@.screen[at - 1]);
            Some(self.screen[at - 1].cells.as_slice())
        } else {
            None
        };
        RowCtx {
            cells: self.screen[at].cells.as_slice(),
            shown,
            prev_row,
            row,
            cols: self.cols,
            wrapping: self.row_is_continuation(row),
        }
    }

    /// Emit bytes leaving the replay cursor at the grid's cursor position,
    /// reproducing a pending-wrap phantom column (`col == cols`) when one is
    /// armed.
    ///
    /// A phantom is re-armed by redrawing the row's last cell. When that cell is
    /// blank (its content was erased without moving the cursor, or the row was
    /// scrolled under a parked cursor), the cell cannot carry the wrap directly:
    /// write a space with the erase cell's attributes, then save the parked
    /// cursor, erase the space, and restore — DECSC/DECRC round-trip the phantom.
    fn write_cursor_position(&self, painter: &mut Painter)
        requires
            grid_wf(self@),
            old(painter).wf(),
        ensures
            final(painter).wf(),
            final(painter).pen == old(painter).pen,
            final(painter).steps@ == cursor_restored(old(painter).so_far(), self@),
    {
        let ghost before = painter.so_far();
        let row: u16 = self.cursor_row;
        let cursor = Pos { row, col: self.cursor_col };
        let cols: u16 = self.cols;
        assert(self.screen@[row as int]@ == self@.screen[row as int]);
        if (painter.pos.row != cursor.row || painter.pos.col != cursor.col) && cursor.col
            >= cols {
            let cells = self.screen[row as usize].cells.as_slice();
            assert(cells_view(cells@) == self@.screen[row as int].cells);
            let last = &cells[cols as usize - 1];
            assert(last@ == cells_view(cells@)[cols - 1]);
            let lead: u16 = if cols >= 2 && last.is_wide_continuation {
                cols - 2
            } else {
                cols - 1
            };
            let cell = &cells[lead as usize];
            assert(cell@ == cells_view(cells@)[lead as int]);
            let pen = painter.pen;
            if cell.has_contents() {
                // Redraw the cell with the content; the write re-parks the
                // cursor. Absolute move even when already in place: an explicit
                // CUP breaks the ZWJ cluster-continuation barrier.
                painter.jump(Pos { row, col: lead });
                painter.set_pen(&cell.attrs);
                painter.print(cell.contents());
                painter.set_pen(&pen);
                assert(before.ops.push(PaintOp::MoveTo(row as int, lead as int)) =~= before.ops
                    + seq![PaintOp::MoveTo(row as int, lead as int)]);
            } else {
                // The last cell is blank: paint and erase a space there instead.
                painter.jump(Pos { row, col: cols - 1 });
                let ghost there = painter.steps@;
                painter.print(" ");
                proof {
                    reveal_strlit(" ");
                    assert(" "@ =~= seq![' ']);
                    space_text();
                    assert(painter.steps@ =~= before.ops + seq![
                        PaintOp::MoveTo(row as int, cols - 1),
                        PaintOp::Print(' '),
                    ]);
                }
                painter.set_pen(&last.attrs);
                let ghost spaced = painter.steps@;
                painter.save();
                painter.back();
                painter.erase_chars(1);
                painter.restore();
                assert(painter.steps@ =~= spaced + seq![
                    PaintOp::Save,
                    PaintOp::Back,
                    PaintOp::EraseChars(1),
                    PaintOp::Restore,
                ]);
                painter.set_pen(&pen);
            }
        } else if painter.pos.row != cursor.row || painter.pos.col != cursor.col {
            painter.move_to(cursor);
        } else {
            assert(painter.steps@ =~= cursor_restored(before, self@));
        }
    }

    /// The cursor position and the pen at the end of painting.
    fn finish_paint(&self, painter: Painter) -> (r: Vec<u8>)
        requires
            grid_wf(self@),
            painter.wf(),
        ensures
            r@ == paint_bytes(paint_finished(painter.so_far(), self@)),
    {
        let mut painter = painter;
        self.write_cursor_position(&mut painter);
        painter.set_pen(&self.current_attrs);
        painter.out
    }

    /// `ClearAttrs` + clear-screen preamble followed by a full paint of the
    /// visible rows and the cursor-position restore. Shared by
    /// `contents_formatted` and the non-diffable `contents_diff` fallback.
    fn contents_full_paint(&self) -> (r: Vec<u8>)
        requires
            grid_wf(self@),
        ensures
            r@ == paint_bytes(full_paint(self@)),
    {
        let mut out: Vec<u8> = Vec::new();
        write_csi(&mut out, 0x6d);
        write_csi(&mut out, 0x48);
        write_csi(&mut out, 0x4a);
        let ghost preamble = seq![
            PaintOp::Sgr(seq![]),
            PaintOp::MoveTo(0, 0),
            PaintOp::EraseDisplay,
        ];
        proof {
            let a = seq![PaintOp::Sgr(seq![])];
            let b = seq![PaintOp::MoveTo(0, 0)];
            let c = seq![PaintOp::EraseDisplay];
            paint_bytes_one(PaintOp::Sgr(seq![]));
            paint_bytes_one(PaintOp::MoveTo(0, 0));
            paint_bytes_one(PaintOp::EraseDisplay);
            paint_bytes_concat(a, b);
            paint_bytes_concat(a + b, c);
            assert(a + b + c =~= preamble);
            assert(out@ =~= paint_bytes(preamble));
        }
        let mut painter = Painter {
            out,
            pos: Pos { row: 0, col: 0 },
            pen: Attrs::default(),
            steps: Ghost(preamble),
        };
        let ghost start = painter.so_far();
        let mut i: u16 = 0;
        while i < self.rows
            invariant
                grid_wf(self@),
                i <= self.rows,
                painter.wf(),
                painter.so_far() == rows_painted(start, self@, i as int),
            decreases self.rows - i,
        {
            let ctx = self.row_ctx(i, None);
            assert(ctx.job() == fresh_job(self@, i as int));
            ctx.enter_row(&mut painter);
            ctx.write_row(&mut painter);
            i = i + 1;
        }
        self.finish_paint(painter)
    }

    /// A repaint of what changed since the state `prev`.
    fn contents_repaint(&self, prev: &Self) -> (r: Vec<u8>)
        requires
            grid_wf(self@),
            grid_wf(prev@),
            prev.rows == self.rows,
            prev.cols == self.cols,
        ensures
            r@ == paint_bytes(repaint(self@, prev@)),
    {
        let mut painter = Painter::start(
            Pos { row: prev.cursor_row, col: prev.cursor_col },
            prev.current_attrs,
        );
        let ghost start = painter.so_far();
        let mut i: u16 = 0;
        while i < self.rows
            invariant
                grid_wf(self@),
                grid_wf(prev@),
                prev.rows == self.rows,
                prev.cols == self.cols,
                i <= self.rows,
                painter.wf(),
                painter.so_far() == rows_repainted(start, self@, prev@, i as int),
            decreases self.rows - i,
        {
            assert(prev.screen@[i as int]@ == prev@.screen[i as int]);
            let ctx = self.row_ctx(i, Some(prev.screen[i as usize].cells.as_slice()));
            assert(ctx.job() == diff_job(self@, prev@, i as int));
            ctx.reenter_row(&mut painter, prev.row_is_continuation(i));
            ctx.write_row(&mut painter);
            i = i + 1;
        }
        self.finish_paint(painter)
    }

    fn write_autowrap_off(&self, out: &mut Vec<u8>)
        ensures
            final(out)@ == old(out)@ + paint_bytes(autowrap_off(self@)),
    {
        if !self.modes.autowrap {
            write_mode(out, 7, false);
        } else {
            proof {
                paint_bytes_none();
                assert(out@ =~= old(out)@ + paint_bytes(autowrap_off(self@)));
            }
        }
    }

    fn write_contents_formatted(&self, out: &mut Vec<u8>)
        requires
            grid_wf(self@),
        ensures
            final(out)@ == old(out)@ + paint_bytes(contents_ops(self@)),
    {
        // Row serialization uses pending-wrap semantics. Establish its mode
        // before painting, even when the destination previously disabled it.
        write_mode(out, 7, true);
        write_mode(out, 25, !self.modes.hide_cursor);
        let paint = self.contents_full_paint();
        push_bytes(out, paint.as_slice());
        self.write_autowrap_off(out);
        proof {
            let a = seq![PaintOp::Mode(7, true)];
            let b = seq![PaintOp::Mode(25, !self@.modes.hide_cursor)];
            paint_bytes_concat(a, b);
            assert(a + b =~= seq![
                PaintOp::Mode(7, true),
                PaintOp::Mode(25, !self@.modes.hide_cursor),
            ]);
            paint_bytes_concat(a + b, full_paint(self@));
            paint_bytes_concat(a + b + full_paint(self@), autowrap_off(self@));
            assert(out@ =~= old(out)@ + paint_bytes(contents_ops(self@)));
        }
    }

    fn write_contents_diff(&self, out: &mut Vec<u8>, prev: &Self)
        requires
            grid_wf(self@),
            grid_wf(prev@),
        ensures
            final(out)@ == old(out)@ + paint_bytes(contents_diff_ops(self@, prev@)),
    {
        let ghost hide = if self@.modes.hide_cursor != prev@.modes.hide_cursor {
            seq![PaintOp::Mode(25, !self@.modes.hide_cursor)]
        } else {
            seq![]
        };
        write_mode(out, 7, true);
        if self.modes.hide_cursor != prev.modes.hide_cursor {
            write_mode(out, 25, !self.modes.hide_cursor);
        }
        // A screen switch or a dimension change cannot be diffed: repaint
        // fully (the input-mode writer performs the `?1049` switch first).
        let same_screen = self.rows == prev.rows && self.cols == prev.cols && self.alt_screen
            == prev.alt_screen;
        let paint = if same_screen {
            self.contents_repaint(prev)
        } else {
            self.contents_full_paint()
        };
        push_bytes(out, paint.as_slice());
        self.write_autowrap_off(out);
        proof {
            let a = seq![PaintOp::Mode(7, true)];
            let p = if diffable(self@, prev@) {
                repaint(self@, prev@)
            } else {
                full_paint(self@)
            };
            paint_bytes_none();
            paint_bytes_concat(a, hide);
            paint_bytes_concat(a + hide, p);
            paint_bytes_concat(a + hide + p, autowrap_off(self@));
            assert(out@ =~= old(out)@ + paint_bytes(contents_diff_ops(self@, prev@)));
        }
    }

    fn mode_steps(&self) -> (r: Painter)
        ensures
            r.wf(),
            r.steps@ == input_mode_ops(self@),
    {
        proof {
            reveal(input_mode_ops);
        }
        let m = self.modes;
        let mut painter = Painter::start(Pos { row: 0, col: 0 }, Attrs::default());
        painter.mode(7, m.autowrap);
        painter.keypad(m.keypad);
        painter.mode(1, m.app_cursor);
        painter.mode(2004, m.paste);
        assert(painter.steps@ =~= seq![
            PaintOp::Mode(7, m.autowrap),
            PaintOp::Keypad(m.keypad),
            PaintOp::Mode(1, m.app_cursor),
            PaintOp::Mode(2004, m.paste),
        ]);
        painter.exclusive_mode(mouse_mode_number(m.mouse_mode), 0);
        painter.exclusive_mode(mouse_encoding_number(m.mouse_encoding), 0);
        let ghost early = painter.steps@;
        if self.alt_screen {
            painter.mode(1049, true);
        } else {
            assert(early + Seq::<PaintOp>::empty() =~= early);
        }
        let ghost switched = painter.steps@;
        painter.mode(25, !m.hide_cursor);
        painter.cursor_style(m.cursor_style);
        assert(painter.steps@ =~= switched + seq![
            PaintOp::Mode(25, !m.hide_cursor),
            PaintOp::Style(m.cursor_style),
        ]);
        painter
    }

    fn mode_diff_steps(&self, prev: &Self) -> (r: Painter)
        ensures
            r.wf(),
            r.steps@ == input_mode_diff_ops(self@, prev@),
    {
        let m = self.modes;
        let p = prev.modes;
        let mut painter = self.switch_diff_steps(prev);
        painter.exclusive_mode(
            mouse_mode_number(m.mouse_mode),
            mouse_mode_number(p.mouse_mode),
        );
        painter.exclusive_mode(
            mouse_encoding_number(m.mouse_encoding),
            mouse_encoding_number(p.mouse_encoding),
        );
        painter.mode_diff(1049, self.alt_screen, prev.alt_screen);
        painter.mode_diff(25, !m.hide_cursor, !p.hide_cursor);
        self.style_diff(&mut painter, prev);
        proof {
            reveal(input_mode_diff_ops);
        }
        painter
    }

    fn switch_diff_steps(&self, prev: &Self) -> (r: Painter)
        ensures
            r.wf(),
            r.steps@ == mode_diff_ops(7, self@.modes.autowrap, prev@.modes.autowrap)
                + keypad_diff_ops(self@, prev@) + mode_diff_ops(
                1,
                self@.modes.app_cursor,
                prev@.modes.app_cursor,
            ) + mode_diff_ops(2004, self@.modes.paste, prev@.modes.paste),
    {
        let m = self.modes;
        let p = prev.modes;
        let mut painter = Painter::start(Pos { row: 0, col: 0 }, Attrs::default());
        painter.mode_diff(7, m.autowrap, p.autowrap);
        assert(painter.steps@ =~= mode_diff_ops(7, m.autowrap, p.autowrap));
        self.keypad_diff(&mut painter, prev);
        painter.mode_diff(1, m.app_cursor, p.app_cursor);
        painter.mode_diff(2004, m.paste, p.paste);
        painter
    }

    fn keypad_diff(&self, painter: &mut Painter, prev: &Self)
        requires
            old(painter).wf(),
        ensures
            final(painter).wf(),
            final(painter).steps@ == old(painter).steps@ + keypad_diff_ops(self@, prev@),
    {
        proof {
            reveal(keypad_diff_ops);
        }
        let ghost before = painter.steps@;
        if self.modes.keypad != prev.modes.keypad {
            painter.keypad(self.modes.keypad);
        }
        assert(painter.steps@ =~= before + keypad_diff_ops(self@, prev@));
    }

    fn style_diff(&self, painter: &mut Painter, prev: &Self)
        requires
            old(painter).wf(),
        ensures
            final(painter).wf(),
            final(painter).steps@ == old(painter).steps@ + style_diff_ops(self@, prev@),
    {
        proof {
            reveal(style_diff_ops);
        }
        let ghost before = painter.steps@;
        if self.modes.cursor_style != prev.modes.cursor_style {
            painter.cursor_style(self.modes.cursor_style);
        }
        assert(painter.steps@ =~= before + style_diff_ops(self@, prev@));
    }

    /// Terminal escape sequences reproducing the visible contents of the
    /// grid: cells (with attributes), the cursor position including a
    /// pending-wrap phantom column, the current SGR pen, DECAWM, and cursor
    /// visibility. See [`crate::paint`] for the replay contract.
    #[must_use]
    pub fn contents_formatted(&self) -> (r: Vec<u8>)
        requires
            self.wf(),
        ensures
            r@ == paint_bytes(contents_ops(self@)),
            paints_wf(contents_ops(self@)),
    {
        let mut out: Vec<u8> = Vec::new();
        self.write_contents_formatted(&mut out);
        proof {
            assert(out@ =~= paint_bytes(contents_ops(self@)));
            contents_ops_wf(self@);
        }
        out
    }

    /// Terminal escape sequences turning the visible contents described by
    /// `prev` into the visible contents described by `self`. Replaying
    /// `prev.contents_formatted()` followed by `self.contents_diff(prev)`
    /// produces the same visible state as `self.contents_formatted()`.
    #[must_use]
    pub fn contents_diff(&self, prev: &Self) -> (r: Vec<u8>)
        requires
            self.wf(),
            prev.wf(),
        ensures
            r@ == paint_bytes(contents_diff_ops(self@, prev@)),
            paints_wf(contents_diff_ops(self@, prev@)),
    {
        let mut out: Vec<u8> = Vec::new();
        self.write_contents_diff(&mut out, prev);
        proof {
            assert(out@ =~= paint_bytes(contents_diff_ops(self@, prev@)));
            contents_diff_ops_wf(self@, prev@);
        }
        out
    }

    /// Terminal escape sequences setting the grid's input modes: DECAWM,
    /// application keypad, application cursor keys, bracketed paste, mouse
    /// protocol mode and encoding, alternate screen (`?1049`), cursor
    /// visibility, and the DECSCUSR cursor style.
    #[must_use]
    pub fn input_mode_formatted(&self) -> (r: Vec<u8>)
        requires
            self.wf(),
        ensures
            r@ == paint_bytes(input_mode_ops(self@)),
            paints_wf(input_mode_ops(self@)),
    {
        proof {
            input_mode_ops_wf(self@);
        }
        self.mode_steps().out
    }

    /// Terminal escape sequences changing the input modes described by `prev`
    /// to the input modes of `self`.
    #[must_use]
    pub fn input_mode_diff(&self, prev: &Self) -> (r: Vec<u8>)
        requires
            self.wf(),
            prev.wf(),
        ensures
            r@ == paint_bytes(input_mode_diff_ops(self@, prev@)),
            paints_wf(input_mode_diff_ops(self@, prev@)),
    {
        proof {
            input_mode_diff_ops_wf(self@, prev@);
        }
        self.mode_diff_steps(prev).out
    }

    /// Escape codes sufficient to reproduce the entire terminal state: the
    /// input modes (including the `?1049` screen switch, which must precede
    /// painting) followed by the visible contents. Replaying into a fresh
    /// grid of the same dimensions reproduces the state exactly — see
    /// [`crate::paint`] for the contract.
    #[must_use]
    pub fn state_formatted(&self) -> (r: Vec<u8>)
        requires
            self.wf(),
        ensures
            r@ == paint_bytes(state_ops(self@)),
            paints_wf(state_ops(self@)),
    {
        let mut out: Vec<u8> = self.mode_steps().out;
        self.write_contents_formatted(&mut out);
        proof {
            paint_bytes_concat(input_mode_ops(self@), contents_ops(self@));
            input_mode_ops_wf(self@);
            contents_ops_wf(self@);
        }
        out
    }

    /// Escape codes turning the terminal state described by `prev` into the
    /// state described by `self` (input-mode diff, then contents diff).
    /// Replaying `prev.state_formatted()` followed by `self.state_diff(prev)`
    /// into a fresh grid reproduces `self`'s state exactly.
    #[must_use]
    pub fn state_diff(&self, prev: &Self) -> (r: Vec<u8>)
        requires
            self.wf(),
            prev.wf(),
        ensures
            r@ == paint_bytes(state_diff_ops(self@, prev@)),
            paints_wf(state_diff_ops(self@, prev@)),
    {
        let mut out: Vec<u8> = self.mode_diff_steps(prev).out;
        self.write_contents_diff(&mut out, prev);
        proof {
            paint_bytes_concat(input_mode_diff_ops(self@, prev@), contents_diff_ops(self@, prev@));
            input_mode_diff_ops_wf(self@, prev@);
            contents_diff_ops_wf(self@, prev@);
        }
        out
    }

    /// Whether the visible cells of two grids are equal, hyperlinks aside.
    fn cells_eq(&self, other: &Self) -> (r: bool)
        requires
            grid_wf(self@),
            grid_wf(other@),
            self.rows == other.rows,
            self.cols == other.cols,
        ensures
            r == same_cells(self@, other@),
    {
        let mut row: u16 = 0;
        while row < self.rows
            invariant
                grid_wf(self@),
                grid_wf(other@),
                self.rows == other.rows,
                self.cols == other.cols,
                row <= self.rows,
                forall|i: int|
                    0 <= i < row ==> unlinked_row((#[trigger] self@.screen[i]).cells)
                        == unlinked_row(other@.screen[i].cells),
            decreases self.rows - row,
        {
            let at: usize = row as usize;
            assert(self.screen@[at as int]@ == self@.screen[at as int]);
            assert(other.screen@[at as int]@ == other@.screen[at as int]);
            let same = rows_look_same(
                self.screen[at].cells.as_slice(),
                other.screen[at].cells.as_slice(),
            );
            if !same {
                return false;
            }
            row = row + 1;
        }
        true
    }

    /// Whether `self` and `other` are equal over the serialization replay
    /// contract (see [`crate::paint`]): visible cells with full attributes,
    /// cursor position including the pending-wrap phantom column, the current
    /// SGR pen, DECAWM, application keypad/cursor keys, bracketed paste, mouse
    /// protocol mode/encoding, alternate screen, cursor visibility, and
    /// DECSCUSR cursor style.
    #[must_use]
    pub fn state_eq(&self, other: &Self) -> (r: bool)
        requires
            self.wf(),
            other.wf(),
        ensures
            r == same_state(self@, other@),
    {
        if self.rows != other.rows || self.cols != other.cols {
            return false;
        }
        let m = self.modes;
        let o = other.modes;
        self.cells_eq(other) && self.cursor_row == other.cursor_row && self.cursor_col
            == other.cursor_col && self.current_attrs == other.current_attrs && m.autowrap
            == o.autowrap && m.keypad == o.keypad && m.app_cursor == o.app_cursor && m.paste
            == o.paste && mouse_mode_number(m.mouse_mode) == mouse_mode_number(o.mouse_mode)
            && mouse_encoding_number(m.mouse_encoding) == mouse_encoding_number(o.mouse_encoding)
            && self.alt_screen == other.alt_screen && m.hide_cursor == o.hide_cursor
            && m.cursor_style == o.cursor_style
    }
}

/// Whether two rows are equal, hyperlinks aside.
fn rows_look_same(a: &[Cell], b: &[Cell]) -> (r: bool)
    requires
        a@.len() == b@.len(),
    ensures
        r == (unlinked_row(cells_view(a@)) == unlinked_row(cells_view(b@))),
{
    let mut i: usize = 0;
    while i < a.len()
        invariant
            i <= a@.len() == b@.len(),
            forall|j: int|
                0 <= j < i ==> #[trigger] unlinked_row(cells_view(a@))[j] == unlinked_row(
                    cells_view(b@),
                )[j],
        decreases a@.len() - i,
    {
        let same = crate::compact::compact_eq(&a[i].contents, &b[i].contents) && a[i].is_wide
            == b[i].is_wide && a[i].is_wide_continuation == b[i].is_wide_continuation && a[i].attrs
            == b[i].attrs;
        assert(same == (unlinked_row(cells_view(a@))[i as int] == unlinked_row(
            cells_view(b@),
        )[i as int])) by {
            let x = unlinked_row(cells_view(a@))[i as int];
            let y = unlinked_row(cells_view(b@))[i as int];
            if same {
                assert(x =~= y);
            }
        }
        if !same {
            return false;
        }
        i = i + 1;
    }
    assert(unlinked_row(cells_view(a@)) =~= unlinked_row(cells_view(b@)));
    true
}

} // verus!
