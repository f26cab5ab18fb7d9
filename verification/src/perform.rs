//! What parsed events do to a grid.

use crate::arena::make_blank_grid;
use crate::bytes::{decimal, push_text, write_u16, write_u32};
use crate::cell::Attrs;
use crate::grid::{power_on_modes, DamageGrid, SavedCursor};
use crate::model::RowWrap;
use crate::params::{first_values, params_view, value_or_zero, ParamList};
use crate::parse::{apply_sgr_params, reconstruct_csi};
use crate::passthrough::{PassV, PassthroughEvent};
use crate::state::{
    apply, apply_all, apply_sgr, at_least_one, csi, csi_edit, csi_move, csi_other, decrqm, drop_csi,
    edits_screen, emit, enter_alternate, esc, execute, first_of, full_reset, grid_wf, kitty_pop,
    kitty_popped, kitty_push, kitty_resets, leave_alternate, low_byte, mode_events, mode_report,
    mode_status, mouse_encoding_if, mouse_encoding_of, mouse_mode_if, mouse_mode_of, move_to,
    moves_cursor, param_at, position_report, reply, restore_cursor, reverse_index, save_cursor,
    scroll_down, set_dec_mode, set_dec_modes, set_margins, show_screen, soft_reset, unparked,
    with_mode, EventV, GridV, Modes, MouseProtocolEncoding, MouseProtocolMode, KITTY_KB_STACK_CAP,
};
use crate::vt::{osc_params_view, vt_events_view, VtEvent};
use crate::wellformed::{apply_keeps_wf, event_wf, events_wf};
use vstd::prelude::*;
use vstd::utf8::encode_utf8;

verus! {

/// DEC mode number of a mouse mode (`0` for none).
pub(crate) fn mouse_mode_number(mode: MouseProtocolMode) -> (r: u16)
    ensures
        r == mouse_mode_of(mode),
{
    match mode {
        MouseProtocolMode::Off => 0,
        MouseProtocolMode::Press => 1000,
        MouseProtocolMode::PressRelease => 1002,
        MouseProtocolMode::ButtonMotion => 1002,
        MouseProtocolMode::AnyEvent => 1003,
        MouseProtocolMode::AnyMotion => 1003,
    }
}

/// DEC mode number of a mouse encoding (`0` for the default one).
pub(crate) fn mouse_encoding_number(encoding: MouseProtocolEncoding) -> (r: u16)
    ensures
        r == mouse_encoding_of(encoding),
{
    match encoding {
        MouseProtocolEncoding::Default => 0,
        MouseProtocolEncoding::Utf8 => 1005,
        MouseProtocolEncoding::Sgr => 1006,
        MouseProtocolEncoding::Urxvt => 1015,
    }
}

fn mouse_mode_or_off(on: bool, mode: MouseProtocolMode) -> (r: MouseProtocolMode)
    ensures
        r == mouse_mode_if(on, mode),
{
    if on {
        mode
    } else {
        MouseProtocolMode::Off
    }
}

fn mouse_encoding_or_default(on: bool, encoding: MouseProtocolEncoding) -> (r:
    MouseProtocolEncoding)
    ensures
        r == mouse_encoding_if(on, encoding),
{
    if on {
        encoding
    } else {
        MouseProtocolEncoding::Default
    }
}

/// The modes with a DEC private mode switched on or off.
fn switch_mode(m: Modes, mode: u16, on: bool) -> (r: Modes)
    ensures
        r == with_mode(m, mode, on),
{
    proof {
        reveal(with_mode);
    }
    match mode {
        1 => Modes { app_cursor: on, ..m },
        7 => Modes { autowrap: on, ..m },
        12 => Modes { text_cursor: Some(on), ..m },
        25 => Modes { hide_cursor: !on, ..m },
        1000 => Modes { mouse_mode: mouse_mode_or_off(on, MouseProtocolMode::Press), ..m },
        1002 => Modes { mouse_mode: mouse_mode_or_off(on, MouseProtocolMode::ButtonMotion), ..m },
        1003 => Modes { mouse_mode: mouse_mode_or_off(on, MouseProtocolMode::AnyMotion), ..m },
        1004 => Modes { focus: on, ..m },
        1005 => Modes {
            mouse_encoding: mouse_encoding_or_default(on, MouseProtocolEncoding::Utf8),
            ..m
        },
        1006 => Modes {
            mouse_encoding: mouse_encoding_or_default(on, MouseProtocolEncoding::Sgr),
            ..m
        },
        1015 => Modes {
            mouse_encoding: mouse_encoding_or_default(on, MouseProtocolEncoding::Urxvt),
            ..m
        },
        2004 => Modes { paste: on, ..m },
        // Synchronized output is tracked and absorbed.
        2026 => Modes { sync_update: on, ..m },
        _ => m,
    }
}

/// The bytes of a literal reply.
fn literal(text: &str) -> (r: Vec<u8>)
    ensures
        r@ == encode_utf8(text@),
{
    let mut out: Vec<u8> = Vec::new();
    push_text(&mut out, text);
    assert(out@ =~= encode_utf8(text@));
    out
}

fn status_of(on: bool) -> (r: u16)
    ensures
        r == mode_status(on),
{
    if on {
        1
    } else {
        2
    }
}

fn count_of(n: u16) -> (r: u16)
    ensures
        r == at_least_one(n),
{
    if n == 0 {
        1
    } else {
        n
    }
}

fn contains_byte(bytes: &[u8], byte: u8) -> (r: bool)
    ensures
        r == bytes@.contains(byte),
{
    let mut i: usize = 0;
    while i < bytes.len()
        invariant
            i <= bytes@.len(),
            forall|j: int| 0 <= j < i ==> bytes@[j] != byte,
        decreases bytes@.len() - i,
    {
        if bytes[i] == byte {
            assert(bytes@.contains(byte));
            return true;
        }
        i = i + 1;
    }
    false
}

fn is_single(bytes: &[u8], byte: u8) -> (r: bool)
    ensures
        r == (bytes@ == seq![byte]),
{
    let r = bytes.len() == 1 && bytes[0] == byte;
    assert(r ==> bytes@ =~= seq![byte]);
    r
}

impl DamageGrid {
    // ── Cursor ──────────────────────────────────────────────────────────────
    /// Cancel a deferred (DECAWM) wrap. Any explicit cursor move un-parks the
    /// cursor back into the addressable range, so that the subsequent move
    /// computes from a valid column.
    fn clear_pending_wrap(&mut self)
        requires
            old(self).cols >= 1,
        ensures
            final(self).dirty == old(self).dirty,
            final(self).same_stream(*old(self)),
            final(self)@ == unparked(old(self)@),
    {
        if self.cursor_col >= self.cols {
            self.cursor_col = self.cols - 1;
        }
        self.wrap_cancelled = false;
        assert(self@ =~= unparked(old(self)@));
    }

    fn set_cursor(&mut self, row: u16, col: u16)
        requires
            old(self).rows >= 1,
            old(self).cols >= 1,
        ensures
            final(self).dirty == old(self).dirty,
            final(self).same_stream(*old(self)),
            final(self)@ == move_to(old(self)@, row as int, col as int),
    {
        self.cursor_row = if row < self.rows - 1 {
            row
        } else {
            self.rows - 1
        };
        self.cursor_col = if col < self.cols - 1 {
            col
        } else {
            self.cols - 1
        };
        self.wrap_cancelled = false;
        assert(self@ =~= move_to(old(self)@, row as int, col as int));
    }

    fn store_cursor(&mut self)
        ensures
            final(self).dirty == old(self).dirty,
            final(self).same_stream(*old(self)),
            final(self)@ == save_cursor(old(self)@),
    {
        self.saved = SavedCursor {
            row: self.cursor_row,
            col: self.cursor_col,
            parked: self.cursor_col >= self.cols && !self.wrap_cancelled,
        };
        assert(self@ =~= save_cursor(old(self)@));
    }

    fn recall_cursor(&mut self)
        requires
            old(self).rows >= 1,
            old(self).cols >= 1,
        ensures
            final(self).dirty == old(self).dirty,
            final(self).same_stream(*old(self)),
            final(self)@ == restore_cursor(old(self)@),
    {
        let ghost before = self@;
        let saved = self.saved;
        self.set_cursor(saved.row, saved.col);
        if saved.parked {
            self.cursor_col = self.cols;
        }
        assert(self@ =~= restore_cursor(before));
    }

    /// DECSTBM: set top and bottom margins, and home the cursor.
    fn set_margins(&mut self, p0: u16, p1: u16)
        requires
            old(self).rows >= 1,
        ensures
            final(self).dirty == old(self).dirty,
            final(self).same_stream(*old(self)),
            final(self)@ == set_margins(old(self)@, p0, p1),
    {
        let ghost before = self@;
        let last: u16 = self.rows - 1;
        let top: u16 = p0.saturating_sub(1);
        let bottom: u16 = if p1 == 0 || p1 - 1 > last {
            last
        } else {
            p1 - 1
        };
        if top < bottom {
            self.scroll_top = top;
            self.scroll_bottom = bottom;
        } else {
            // Invalid region: reset to full screen.
            self.scroll_top = 0;
            self.scroll_bottom = last;
        }
        self.cursor_row = 0;
        self.cursor_col = 0;
        self.wrap_cancelled = false;
        assert(self@ =~= set_margins(before, p0, p1));
    }

    /// A CSI sequence that moves the cursor. It cancels a deferred wrap first;
    /// SGR, mode toggles, erases and edit ops preserve it.
    fn csi_move(&mut self, p0: u16, p1: u16, action: char)
        requires
            grid_wf(old(self)@),
            moves_cursor(action),
        ensures
            final(self).dirty == old(self).dirty,
            final(self).same_stream(*old(self)),
            final(self)@ == csi_move(old(self)@, p0, p1, action),
    {
        proof {
            reveal(csi_move);
        }
        self.clear_pending_wrap();
        let n: u16 = count_of(p0);
        let row: u16 = self.cursor_row;
        let col: u16 = self.cursor_col;
        match action {
            'A' => self.set_cursor(row.saturating_sub(n), col),
            'B' => self.set_cursor(row.saturating_add(n), col),
            'C' => self.set_cursor(row, col.saturating_add(n)),
            'D' => self.set_cursor(row, col.saturating_sub(n)),
            'E' => self.set_cursor(row.saturating_add(n), 0),
            'F' => self.set_cursor(row.saturating_sub(n), 0),
            'G' => self.set_cursor(row, p0.saturating_sub(1)),
            'd' => self.set_cursor(p0.saturating_sub(1), col),
            'r' => self.set_margins(p0, p1),
            _ => self.set_cursor(p0.saturating_sub(1), p1.saturating_sub(1)),
        }
    }

    /// A CSI sequence that edits the screen.
    fn csi_edit(&mut self, p0: u16, action: char)
        requires
            grid_wf(old(self)@),
            old(self).dirty.wf(),
            edits_screen(action),
        ensures
            final(self).dirty.wf(),
            final(self).same_stream(*old(self)),
            final(self)@ == csi_edit(old(self)@, p0, action),
    {
        proof {
            reveal(csi_edit);
        }
        let n: u16 = count_of(p0);
        match action {
            '@' => self.insert_chars(n),
            'J' => self.erase_display(p0),
            'K' => self.erase_line(p0),
            'L' => self.insert_lines(n),
            'M' => self.delete_lines(n),
            'P' => self.delete_chars(n),
            'S' => self.scroll_up(n, RowWrap::Hard),
            'T' => self.scroll_down(n),
            _ => self.erase_chars(n),
        }
    }

    // ── Modes ───────────────────────────────────────────────────────────────
    fn set_alt_screen(&mut self, active: bool)
        ensures
            final(self).dirty.wf(),
            final(self).same_stream(*old(self)),
            final(self)@ == show_screen(old(self)@, active),
    {
        let ghost before = self@;
        if self.alt_screen != active {
            self.alt_screen = active;
            std::mem::swap(&mut self.screen, &mut self.hidden);
        }
        self.dirty.mark_all();
        assert(self@ =~= show_screen(before, active));
    }

    fn leave_alternate(&mut self)
        requires
            grid_wf(old(self)@),
        ensures
            final(self).dirty.wf(),
            final(self).same_stream(*old(self)),
            final(self)@ == leave_alternate(old(self)@),
    {
        let ghost before = self@;
        self.set_alt_screen(false);
        self.recall_cursor();
        // Programs in the alternate screen may not clean up their keyboard
        // mode stack: reset one level for each that was pushed.
        let ghost shown = self@;
        let depth: usize = self.kitty_kb_stack.len();
        self.kitty_kb_stack.clear();
        let ghost start = *self;
        let mut k: usize = 0;
        assert(shown.events + kitty_resets(0) =~= shown.events);
        assert(self.kitty_kb_stack@ =~= Seq::<u32>::empty());
        while k < depth
            invariant
                k <= depth,
                self.dirty.wf(),
                self.same_stream(start),
                self@ == (GridV {
                    kitty: Seq::empty(),
                    events: shown.events + kitty_resets(k as nat),
                    ..shown
                }),
            decreases depth - k,
        {
            let reset = PassthroughEvent::UnhandledCsi(literal("\x1b[<u"));
            self.passthrough.push(reset);
            assert(shown.events + kitty_resets((k + 1) as nat) =~= (shown.events + kitty_resets(
                k as nat,
            )).push(reset@));
            k = k + 1;
        }
    }

    /// Switch a DEC private mode on or off.
    fn set_dec_mode(&mut self, mode: u16, enabled: bool)
        requires
            grid_wf(old(self)@),
            old(self).dirty.wf(),
        ensures
            final(self).dirty.wf(),
            final(self).same_stream(*old(self)),
            final(self)@ == set_dec_mode(old(self)@, mode, enabled),
    {
        let ghost before = self@;
        proof {
            reveal(set_dec_mode);
        }
        match mode {
            // Alternate screen without cursor save.
            47 | 1047 => self.set_alt_screen(enabled),
            // Alternate screen with cursor save/restore.
            1049 => {
                if enabled {
                    self.store_cursor();
                    self.set_alt_screen(true);
                    self.cursor_row = 0;
                    self.cursor_col = 0;
                    self.wrap_cancelled = false;
                    assert(self@ =~= enter_alternate(before));
                } else {
                    self.leave_alternate();
                }
            },
            _ => {
                self.modes = switch_mode(self.modes, mode, enabled);
                match mode {
                    1 => self.passthrough.push(PassthroughEvent::ApplicationCursorKeys(enabled)),
                    1004 => self.passthrough.push(PassthroughEvent::FocusEvents(enabled)),
                    2004 => self.passthrough.push(PassthroughEvent::BracketedPaste(enabled)),
                    _ => {},
                }
                assert(self.passthrough@ =~= before.events + mode_events(mode, enabled));
                assert(self@ =~= set_dec_mode(before, mode, enabled));
            },
        }
    }

    fn set_dec_modes(&mut self, params: &[Vec<u16>], list: &ParamList, enabled: bool)
        requires
            grid_wf(old(self)@),
            old(self).dirty.wf(),
            crate::params::param_values(*list).len() == params@.len(),
            forall|i: int|
                0 <= i < params@.len() ==> #[trigger] crate::params::param_values(*list)[i]
                    == first_of(params@[i]@),
        ensures
            final(self).dirty.wf(),
            final(self).same_stream(*old(self)),
            final(self)@ == set_dec_modes(old(self)@, params_view(params@), enabled),
    {
        let ghost before = self@;
        let ghost start = *self;
        let ghost all = params_view(params@);
        let n: usize = crate::params::params_len(list);
        let mut i: usize = 0;
        assert(all.take(0) =~= Seq::empty());
        while i < n
            invariant
                i <= n == params@.len(),
                all == params_view(params@),
                crate::params::param_values(*list).len() == params@.len(),
                forall|j: int|
                    0 <= j < params@.len() ==> #[trigger] crate::params::param_values(*list)[j]
                        == first_of(params@[j]@),
                grid_wf(before),
                self.dirty.wf(),
                self.same_stream(start),
                self@ == set_dec_modes(before, all.take(i as int), enabled),
            decreases n - i,
        {
            proof {
                crate::wellformed::set_dec_modes_wf(before, all.take(i as int), enabled);
                assert(all.take(i + 1).drop_last() =~= all.take(i as int));
                assert(all.take(i + 1).last() == params@[i as int]@);
            }
            self.set_dec_mode(value_or_zero(list, i), enabled);
            i = i + 1;
        }
        assert(all.take(n as int) =~= all);
    }

    /// DECRQM status of a DEC private mode: `1` set, `2` reset, `0` for a mode
    /// that is not tracked. Grapheme-cluster width (2027) is declined.
    #[must_use]
    pub fn decrqm_status(&self, mode: u16) -> (r: u16)
        requires
            self.wf(),
        ensures
            r == decrqm(self@, mode),
    {
        let m = self.modes;
        match mode {
            1 => status_of(m.app_cursor),
            7 => status_of(m.autowrap),
            12 => match m.text_cursor {
                Some(on) => status_of(on),
                None => 2,
            },
            25 => status_of(!m.hide_cursor),
            47 | 1047 | 1049 => status_of(self.alt_screen),
            1000 | 1002 | 1003 => status_of(mouse_mode_number(m.mouse_mode) == mode),
            1004 => status_of(m.focus),
            1005 | 1006 | 1015 => status_of(mouse_encoding_number(m.mouse_encoding) == mode),
            2004 => status_of(m.paste),
            2026 => status_of(m.sync_update),
            _ => self.profile.decrqm_status(mode),
        }
    }

    // ── Replies ─────────────────────────────────────────────────────────────
    fn push_reply(&mut self, text: &str)
        ensures
            final(self).dirty == old(self).dirty,
            final(self).same_stream(*old(self)),
            final(self)@ == reply(old(self)@, text@),
    {
        self.passthrough.push(PassthroughEvent::Reply(literal(text)));
        assert(self@ =~= reply(old(self)@, text@));
    }

    fn push_event(&mut self, event: PassthroughEvent)
        ensures
            final(self).dirty == old(self).dirty,
            final(self).same_stream(*old(self)),
            final(self)@ == emit(old(self)@, event@),
    {
        self.passthrough.push(event);
        assert(self@ =~= emit(old(self)@, event@));
    }

    /// The cursor position report. A parked cursor is reported on the last
    /// column: `cols + 1` is not an addressable position.
    fn cursor_report(&self, dec: bool) -> (r: Vec<u8>)
        requires
            grid_wf(self@),
        ensures
            r@ == position_report(self@, dec),
    {
        let row: u16 = self.cursor_row.saturating_add(1);
        let col: u16 = (if self.cursor_col < self.cols {
            self.cursor_col
        } else {
            self.cols - 1
        }).saturating_add(1);
        let mut out: Vec<u8> = Vec::new();
        push_text(
            &mut out,
            if dec {
                "\x1b[?"
            } else {
                "\x1b["
            },
        );
        write_u16(&mut out, row);
        push_text(&mut out, ";");
        write_u16(&mut out, col);
        push_text(
            &mut out,
            if dec {
                ";1R"
            } else {
                "R"
            },
        );
        assert(out@ =~= position_report(self@, dec));
        out
    }

    fn push_mode_report(&mut self, mode: u16, status: u16, dec: bool)
        ensures
            final(self).dirty == old(self).dirty,
            final(self).same_stream(*old(self)),
            final(self)@ == emit(old(self)@, PassV::Reply(mode_report(mode, status, dec))),
    {
        let mut out: Vec<u8> = Vec::new();
        push_text(
            &mut out,
            if dec {
                "\x1b[?"
            } else {
                "\x1b["
            },
        );
        write_u16(&mut out, mode);
        push_text(&mut out, ";");
        write_u16(&mut out, status);
        push_text(&mut out, "$y");
        assert(out@ =~= mode_report(mode, status, dec));
        self.push_event(PassthroughEvent::Reply(out));
    }

    /// Kitty keyboard push (`\x1b[>{flags}u`): track depth, and forward raw.
    fn kitty_push(&mut self, p0: u16)
        requires
            old(self).kitty_kb_stack@.len() <= KITTY_KB_STACK_CAP,
        ensures
            final(self).dirty == old(self).dirty,
            final(self).same_stream(*old(self)),
            final(self)@ == kitty_push(old(self)@, p0),
    {
        let ghost before = self@;
        let flags: u32 = count_of(p0) as u32;
        if self.kitty_kb_stack.len() < KITTY_KB_STACK_CAP {
            self.kitty_kb_stack.push(flags);
        }
        let mut out: Vec<u8> = Vec::new();
        push_text(&mut out, "\x1b[>");
        write_u32(&mut out, flags);
        push_text(&mut out, "u");
        assert(out@ =~= encode_utf8("\x1b[>"@) + decimal(flags as nat) + encode_utf8("u"@));
        self.passthrough.push(PassthroughEvent::UnhandledCsi(out));
        assert(self@ =~= kitty_push(before, p0));
    }

    /// Kitty keyboard pop (`\x1b[<{n}u`): pop `n` levels (default 1).
    fn kitty_pop(&mut self, p0: u16)
        ensures
            final(self).dirty == old(self).dirty,
            final(self).same_stream(*old(self)),
            final(self)@ == kitty_pop(old(self)@, p0),
    {
        let ghost before = self@;
        let count: u16 = count_of(p0);
        let depth: usize = self.kitty_kb_stack.len();
        let left: usize = if (count as usize) < depth {
            depth - count as usize
        } else {
            0
        };
        self.kitty_kb_stack.truncate(left);
        assert(self.kitty_kb_stack@ =~= kitty_popped(before.kitty, count as int));
        let mut out: Vec<u8> = Vec::new();
        push_text(&mut out, "\x1b[<");
        write_u16(&mut out, count);
        push_text(&mut out, "u");
        assert(out@ =~= encode_utf8("\x1b[<"@) + decimal(count as nat) + encode_utf8("u"@));
        self.passthrough.push(PassthroughEvent::UnhandledCsi(out));
        assert(self@ =~= kitty_pop(before, p0));
    }

    /// DECSTR — soft reset. Handled in-grid and never forwarded. It cancels a
    /// deferred wrap and leaves the cursor where it is.
    fn soft_reset(&mut self)
        requires
            old(self).rows >= 1,
        ensures
            final(self).dirty == old(self).dirty,
            final(self).same_stream(*old(self)),
            final(self)@ == soft_reset(old(self)@),
    {
        let ghost before = self@;
        self.current_attrs = Attrs::default();
        self.scroll_top = 0;
        self.scroll_bottom = self.rows - 1;
        self.modes = Modes { hide_cursor: false, app_cursor: false, paste: false, ..self.modes };
        self.wrap_cancelled = self.cursor_col >= self.cols;
        self.store_cursor();
        assert(self@ =~= soft_reset(before));
    }

    /// A device query or report: `u`, `c` and `n` sequences.
    fn csi_query(
        &mut self,
        params: &[Vec<u16>],
        p0: u16,
        intermediates: &[u8],
        action: char,
    )
        requires
            grid_wf(old(self)@),
            old(self).dirty.wf(),
            p0 == param_at(params_view(params@), 0),
            action == 'u' || action == 'c' || action == 'n',
        ensures
            final(self).dirty.wf(),
            final(self).same_stream(*old(self)),
            final(self)@ == csi_other(old(self)@, params_view(params@), intermediates@, action),
    {
        proof {
            reveal(csi_other);
        }
        let bare = intermediates.len() == 0;
        let question = is_single(intermediates, 0x3f);
        let greater = is_single(intermediates, 0x3e);
        let less = is_single(intermediates, 0x3c);
        proof {
            assert(seq![0x3fu8][0] == 0x3f && seq![0x3eu8][0] == 0x3e && seq![0x3cu8][0] == 0x3c);
        }
        match action {
            'u' => {
                if bare {
                    self.recall_cursor();
                } else if greater {
                    self.kitty_push(p0);
                } else if less {
                    self.kitty_pop(p0);
                } else if question {
                    // The emulator supports no enhancement flags.
                    self.push_reply("\x1b[?0u");
                } else {
                    self.drop_csi(params, intermediates, action);
                }
            },
            'c' => {
                // A conservative VT220 identity and no optional features.
                if bare {
                    self.push_reply("\x1b[?62c");
                } else if greater {
                    self.push_reply("\x1b[>0;0;0c");
                }
            },
            _ => {
                if bare || question {
                    match p0 {
                        5 => self.push_reply("\x1b[0n"),
                        6 => {
                            let report = self.cursor_report(question);
                            self.push_event(PassthroughEvent::Reply(report));
                        },
                        _ => {},
                    }
                } else {
                    self.drop_csi(params, intermediates, action);
                }
            },
        }
    }

    /// Default-deny: the bytes of an unhandled CSI are carried out as dropped.
    fn drop_csi(&mut self, params: &[Vec<u16>], intermediates: &[u8], action: char)
        ensures
            final(self).dirty == old(self).dirty,
            final(self).same_stream(*old(self)),
            final(self)@ == drop_csi(old(self)@, params_view(params@), intermediates@, action),
    {
        let bytes = reconstruct_csi(params, intermediates, final_byte(action));
        self.push_event(PassthroughEvent::DroppedCsi(bytes));
    }

    /// A CSI sequence that sets a mode or the pen, or resets the grid.
    fn csi_setting(
        &mut self,
        params: &[Vec<u16>],
        list: &ParamList,
        p0: u16,
        intermediates: &[u8],
        action: char,
    )
        requires
            old(self).wf(),
            p0 == param_at(params_view(params@), 0),
            crate::params::param_values(*list).len() == params@.len(),
            forall|i: int|
                0 <= i < params@.len() ==> #[trigger] crate::params::param_values(*list)[i]
                    == first_of(params@[i]@),
            !(action == 'u' || action == 'c' || action == 'n' || action == 'p' || action == 'q'),
        ensures
            final(self).dirty.wf(),
            final(self).same_stream(*old(self)),
            final(self)@ == csi_other(old(self)@, params_view(params@), intermediates@, action),
    {
        let ghost before = self@;
        proof {
            reveal(csi_other);
            assert(seq![0x3fu8][0] == 0x3f && seq![0x3eu8][0] == 0x3e);
        }
        let bare = intermediates.len() == 0;
        let question = is_single(intermediates, 0x3f);
        let greater = is_single(intermediates, 0x3e);
        match action {
            'm' => {
                if bare {
                    apply_sgr_params(&mut self.current_attrs, params);
                    assert(self@ =~= apply_sgr(before, params_view(params@)));
                } else if greater && p0 == 4 {
                    // xterm modifyOtherKeys is on the forward allowlist.
                    let bytes = reconstruct_csi(params, intermediates, final_byte(action));
                    self.push_event(PassthroughEvent::UnhandledCsi(bytes));
                } else {
                    self.drop_csi(params, intermediates, action);
                }
            },
            'h' => {
                if question {
                    self.set_dec_modes(params, list, true);
                } else {
                    self.drop_csi(params, intermediates, action);
                }
            },
            'l' => {
                if question {
                    self.set_dec_modes(params, list, false);
                } else {
                    self.drop_csi(params, intermediates, action);
                }
            },
            's' => self.store_cursor(),
            _ => self.drop_csi(params, intermediates, action),
        }
    }

    /// DECRQM, DECSTR, DECSCUSR and XTVERSION: `p` and `q` sequences.
    fn csi_mode_query(
        &mut self,
        params: &[Vec<u16>],
        p0: u16,
        intermediates: &[u8],
        action: char,
    )
        requires
            old(self).wf(),
            p0 == param_at(params_view(params@), 0),
            action == 'p' || action == 'q',
        ensures
            final(self).dirty.wf(),
            final(self).same_stream(*old(self)),
            final(self)@ == csi_other(old(self)@, params_view(params@), intermediates@, action),
    {
        let ghost before = self@;
        proof {
            reveal(csi_other);
            assert(seq![0x3eu8][0] == 0x3e && seq![0x20u8][0] == 0x20);
        }
        if action == 'p' {
            if contains_byte(intermediates, 0x24) {
                // DECRQM: answered from the grid's own state.
                let dec = contains_byte(intermediates, 0x3f);
                let status: u16 = if dec {
                    self.decrqm_status(p0)
                } else {
                    0
                };
                self.push_mode_report(p0, status, dec);
            } else if is_single(intermediates, 0x21) {
                self.soft_reset();
            } else {
                self.drop_csi(params, intermediates, action);
            }
        } else if is_single(intermediates, 0x20) {
            // DECSCUSR is tracked and never forwarded.
            self.modes.cursor_style = p0;
            assert(self@ =~= GridV {
                modes: Modes { cursor_style: p0, ..before.modes },
                ..before
            });
        } else if !is_single(intermediates, 0x3e) {
            self.drop_csi(params, intermediates, action);
        }
        // XTVERSION (`>`) goes unanswered.
    }

    /// A CSI sequence.
    fn csi_dispatch(&mut self, params: &[Vec<u16>], intermediates: &[u8], action: char)
        requires
            old(self).wf(),
        ensures
            final(self).dirty.wf(),
            final(self).same_stream(*old(self)),
            final(self)@ == csi(old(self)@, params_view(params@), intermediates@, action),
    {
        let list = first_values(params);
        let p0: u16 = value_or_zero(&list, 0);
        let p1: u16 = value_or_zero(&list, 1);
        assert(p0 == param_at(params_view(params@), 0));
        assert(p1 == param_at(params_view(params@), 1));
        match action {
            'A' | 'B' | 'C' | 'D' | 'E' | 'F' | 'G' | 'H' | 'f' | 'd' | 'r' => {
                self.csi_move(p0, p1, action);
            },
            '@' | 'J' | 'K' | 'L' | 'M' | 'P' | 'S' | 'T' | 'X' => {
                self.csi_edit(p0, action);
            },
            'u' | 'c' | 'n' => {
                self.csi_query(params, p0, intermediates, action);
            },
            'p' | 'q' => {
                self.csi_mode_query(params, p0, intermediates, action);
            },
            _ => {
                self.csi_setting(params, &list, p0, intermediates, action);
            },
        }
    }

    // ── Controls and escapes ────────────────────────────────────────────────
    /// A control character.
    fn execute(&mut self, byte: u8)
        requires
            old(self).wf(),
        ensures
            final(self).dirty.wf(),
            final(self).same_stream(*old(self)),
            final(self)@ == execute(old(self)@, byte),
    {
        let ghost before = self@;
        match byte {
            // LF / VT / FF — newline. A plain cursor move dirties nothing;
            // when the newline scrolls, `scroll_up` marks the moved rows.
            0x0a..=0x0c => {
                self.clear_pending_wrap();
                self.newline_action(RowWrap::Hard);
            },
            // CR — carriage return.
            0x0d => {
                self.cursor_col = 0;
                self.wrap_cancelled = false;
                assert(self@ =~= execute(before, byte));
            },
            // BS — backspace.
            0x08 => {
                if self.cursor_col > 0 {
                    self.cursor_col = self.cursor_col - 1;
                }
                self.wrap_cancelled = false;
                assert(self@ =~= execute(before, byte));
            },
            // HT — horizontal tab (move to next tab stop, 8-col aligned).
            0x09 => {
                self.clear_pending_wrap();
                let next: u32 = (self.cursor_col as u32 / 8 + 1) * 8;
                self.cursor_col = if next < (self.cols - 1) as u32 {
                    next as u16
                } else {
                    self.cols - 1
                };
                assert(self@ =~= execute(before, byte));
            },
            // BEL.
            0x07 => {
                self.push_event(PassthroughEvent::Bell);
            },
            _ => {},
        }
    }

    /// RIS — full reset.
    fn full_reset(&mut self)
        requires
            old(self).rows >= 1,
        ensures
            final(self).dirty.wf(),
            final(self).same_stream(*old(self)),
            final(self)@ == full_reset(old(self)@),
    {
        let ghost before = self@;
        self.screen = make_blank_grid(self.rows, self.cols, &self.arena);
        self.hidden = make_blank_grid(self.rows, self.cols, &self.arena);
        self.alt_screen = false;
        self.cursor_row = 0;
        self.cursor_col = 0;
        self.wrap_cancelled = false;
        self.current_attrs = Attrs::default();
        self.active_hyperlink = None;
        self.hyperlink_id = 0;
        self.scroll_top = 0;
        self.scroll_bottom = self.rows - 1;
        let style: u16 = self.modes.cursor_style;
        self.modes = power_on_modes();
        self.modes.cursor_style = style;
        self.scrollback_offset = 0;
        self.dirty.mark_all();
        assert(self@ =~= full_reset(before));
    }

    /// Reverse index: up one row, or scroll the region down at its top margin.
    fn reverse_index(&mut self)
        requires
            grid_wf(old(self)@),
            old(self).dirty.wf(),
        ensures
            final(self).dirty.wf(),
            final(self).same_stream(*old(self)),
            final(self)@ == reverse_index(old(self)@),
    {
        let ghost before = self@;
        self.clear_pending_wrap();
        if self.cursor_row == self.scroll_top {
            self.scroll_down(1);
        } else {
            self.cursor_row = self.cursor_row.saturating_sub(1);
            assert(self@ =~= reverse_index(before));
        }
    }

    fn set_keypad(&mut self, application: bool)
        ensures
            final(self).dirty == old(self).dirty,
            final(self).same_stream(*old(self)),
            final(self)@ == (GridV {
                modes: Modes { keypad: application, ..old(self)@.modes },
                ..old(self)@
            }),
    {
        let ghost before = self@;
        self.modes.keypad = application;
        assert(self@ =~= GridV {
            modes: Modes { keypad: application, ..before.modes },
            ..before
        });
    }

    /// An escape sequence.
    fn esc_dispatch(&mut self, byte: u8)
        requires
            old(self).wf(),
        ensures
            final(self).dirty.wf(),
            final(self).same_stream(*old(self)),
            final(self)@ == esc(old(self)@, byte),
    {
        match byte {
            // RI — reverse index.
            0x4d => self.reverse_index(),
            // DECSC — save cursor.
            0x37 => self.store_cursor(),
            // DECRC — restore cursor.
            0x38 => self.recall_cursor(),
            // DECKPAM / DECKPNM — application and normal keypad.
            0x3d => self.set_keypad(true),
            0x3e => self.set_keypad(false),
            // RIS — full reset.
            0x63 => self.full_reset(),
            _ => {},
        }
    }

    /// Applies a control character.
    fn apply_control(&mut self, byte: u8)
        requires
            old(self).wf(),
        ensures
            final(self).wf(),
            final(self).same_stream(*old(self)),
            final(self)@ == apply(old(self)@, EventV::Execute(byte)),
    {
        let ghost event = EventV::Execute(byte);
        proof {
            apply_keeps_wf(self@, event);
        }
        self.execute(byte);
        self.last_was_print = false;
        assert(self@ =~= apply(old(self)@, event));
    }

    /// Applies a CSI sequence.
    fn apply_csi(&mut self, params: &[Vec<u16>], intermediates: &[u8], action: char)
        requires
            old(self).wf(),
        ensures
            final(self).wf(),
            final(self).same_stream(*old(self)),
            final(self)@ == apply(
                old(self)@,
                (EventV::Csi {
                    params: params_view(params@),
                    intermediates: intermediates@,
                    action,
                }),
            ),
    {
        let ghost event = EventV::Csi {
            params: params_view(params@),
            intermediates: intermediates@,
            action,
        };
        proof {
            apply_keeps_wf(self@, event);
        }
        self.csi_dispatch(params, intermediates, action);
        self.last_was_print = false;
        assert(self@ =~= apply(old(self)@, event));
    }

    /// Applies an escape sequence.
    fn apply_esc(&mut self, byte: u8)
        requires
            old(self).wf(),
        ensures
            final(self).wf(),
            final(self).same_stream(*old(self)),
            final(self)@ == apply(old(self)@, (EventV::Esc { byte })),
    {
        let ghost event = EventV::Esc { byte };
        proof {
            apply_keeps_wf(self@, event);
        }
        self.esc_dispatch(byte);
        self.last_was_print = false;
        assert(self@ =~= apply(old(self)@, event));
    }

    /// Applies an OSC sequence.
    fn apply_osc(&mut self, params: &[Vec<u8>], bell: bool)
        requires
            old(self).wf(),
        ensures
            final(self).wf(),
            final(self).same_stream(*old(self)),
            final(self)@ == apply(
                old(self)@,
                (EventV::Osc { params: osc_params_view(params@), bell }),
            ),
    {
        let ghost event = EventV::Osc { params: osc_params_view(params@), bell };
        proof {
            apply_keeps_wf(self@, event);
        }
        self.handle_osc(params, bell);
        self.last_was_print = false;
        assert(self@ =~= apply(old(self)@, event));
    }

    /// Applies one parsed event. The parser prints no control characters.
    pub fn apply_event(&mut self, event: &VtEvent)
        requires
            old(self).wf(),
            event_wf(event@),
        ensures
            final(self).wf(),
            final(self).same_stream(*old(self)),
            final(self)@ == apply(old(self)@, event@),
    {
        match event {
            VtEvent::Print(ch) => {
                proof {
                    apply_keeps_wf(self@, EventV::Print(*ch));
                }
                self.write_char_at_cursor(*ch);
            },
            VtEvent::Execute(byte) => self.apply_control(*byte),
            VtEvent::Csi { params, intermediates, action } => self.apply_csi(
                params.as_slice(),
                intermediates.as_slice(),
                *action,
            ),
            VtEvent::Esc { byte } => self.apply_esc(*byte),
            VtEvent::Osc { params, bell } => self.apply_osc(params.as_slice(), *bell),
        }
    }

    /// Applies parsed events, in order.
    pub fn apply_events(&mut self, events: &[VtEvent])
        requires
            old(self).wf(),
            events_wf(vt_events_view(events@)),
        ensures
            final(self).wf(),
            final(self).same_stream(*old(self)),
            final(self)@ == apply_all(old(self)@, vt_events_view(events@)),
    {
        let ghost before = self@;
        let ghost start = *self;
        let ghost all = vt_events_view(events@);
        let mut i: usize = 0;
        assert(all.take(0) =~= Seq::empty());
        while i < events.len()
            invariant
                i <= events@.len(),
                all == vt_events_view(events@),
                events_wf(all),
                self.wf(),
                self.same_stream(start),
                self@ == apply_all(before, all.take(i as int)),
            decreases events@.len() - i,
        {
            proof {
                assert(event_wf(all[i as int]));
                assert(all.take(i + 1).drop_last() =~= all.take(i as int));
                assert(all.take(i + 1).last() == events@[i as int]@);
            }
            self.apply_event(&events[i]);
            i = i + 1;
        }
        assert(all.take(i as int) =~= all);
    }
}

/// The byte of a CSI final character.
fn final_byte(action: char) -> (r: u8)
    ensures
        r == low_byte(action),
{
    (action as u32 % 256) as u8
}

} // verus!
