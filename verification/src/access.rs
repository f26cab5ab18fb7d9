//! Reading a grid's state, and setting what the bytes do not carry.

use crate::cell::{Attrs, Cell};
use crate::damage::{clean, dirty_wf, DirtySpans};
use crate::grid::DamageGrid;
use crate::model::{rows_used, ScrollOp};
use crate::passthrough::{events_view, PassthroughEvent};
use crate::state::{least, GridV, MouseProtocolEncoding, MouseProtocolMode};
use vstd::prelude::*;

verus! {

impl DamageGrid {
    /// Drain and return the dirty-row set, clearing it for the next frame.
    pub fn dirty_spans(&mut self) -> (r: DirtySpans)
        requires
            old(self).wf(),
        ensures
            final(self).wf(),
            final(self).same_stream(*old(self)),
            final(self)@ == (GridV { dirty: clean(), ..old(self)@ }),
            r.wf(),
            dirty_wf(r@),
            r@ == old(self)@.dirty,
            final(self).fed() == old(self).fed(),
            final(self).held() == old(self).held(),
    {
        let r = self.dirty.take();
        proof {
            self.dirty.lemma_wf();
            assert(self@ =~= GridV { dirty: clean(), ..old(self)@ });
        }
        r
    }

    /// Drain and return all passthrough events produced during `process()`,
    /// oldest first.
    pub fn drain_passthrough(&mut self) -> (r: Vec<PassthroughEvent>)
        requires
            old(self).wf(),
        ensures
            final(self).wf(),
            events_view(r@) == old(self)@.events,
            final(self)@ == (GridV { events: Seq::empty(), ..old(self)@ }),
            final(self).fed() == old(self).fed(),
            final(self).held() == old(self).held(),
    {
        let r = self.passthrough.drain();
        assert(self@ =~= GridV { events: Seq::empty(), ..old(self)@ });
        r
    }

    /// Drain and return the region shifts recorded since the last call.
    pub fn drain_scroll_ops(&mut self) -> (r: Vec<ScrollOp>)
        requires
            old(self).wf(),
        ensures
            final(self).wf(),
            r@ == old(self)@.scroll_ops,
            final(self)@ == (GridV { scroll_ops: Seq::empty(), ..old(self)@ }),
            final(self).fed() == old(self).fed(),
            final(self).held() == old(self).held(),
    {
        let mut r: Vec<ScrollOp> = Vec::new();
        std::mem::swap(&mut r, &mut self.scroll_ops);
        assert(self@ =~= GridV { scroll_ops: Seq::empty(), ..old(self)@ });
        r
    }

    /// Grid dimensions `(rows, cols)`.
    pub fn size(&self) -> (r: (u16, u16))
        ensures
            r.0 == self@.rows,
            r.1 == self@.cols,
    {
        (self.rows, self.cols)
    }

    /// Scroll affordance metrics for rendering scrollbar chrome.
    ///
    /// Returns `(occupied_rows, viewport_rows, viewport_cols, cursor_row, cursor_col)`,
    /// where `occupied_rows` is the number of rows up to and with the last one
    /// that holds text; `0` means the full viewport is occupied, or none of it.
    #[must_use]
    pub fn scroll_affordance_metrics(&self) -> (r: (u16, u16, u16, u16, u16))
        requires
            self.wf(),
        ensures
            r.0 == if rows_used(self@.screen) == self@.rows {
                0
            } else {
                rows_used(self@.screen)
            },
            r.1 == self@.rows,
            r.2 == self@.cols,
            r.3 == self@.row,
            r.4 == self@.col,
    {
        let used: u16 = self.used_rows() as u16;
        let occupied: u16 = if used == self.rows {
            0
        } else {
            used
        };
        (occupied, self.rows, self.cols, self.cursor_row, self.cursor_col)
    }

    /// Get a cell reference. Returns `None` if out of bounds.
    pub fn cell(&self, row: u16, col: u16) -> (r: Option<&Cell>)
        requires
            self.wf(),
        ensures
            match r {
                Some(cell) => row < self@.rows && col < self@.cols && cell@
                    == self@.screen[row as int].cells[col as int],
                None => row >= self@.rows || col >= self@.cols,
            },
    {
        if row < self.rows && col < self.cols {
            assert(self.screen@[row as int]@ == self@.screen[row as int]);
            Some(&self.screen[row as usize].cells[col as usize])
        } else {
            None
        }
    }

    /// Cursor position `(row, col)`. While a deferred wrap is pending, `col` is
    /// the number of columns.
    pub fn cursor_position(&self) -> (r: (u16, u16))
        ensures
            r.0 == self@.row,
            r.1 == self@.col,
    {
        (self.cursor_row, self.cursor_col)
    }

    /// The attributes that newly written cells get.
    pub fn current_attrs(&self) -> (r: &Attrs)
        ensures
            *r == self@.pen,
    {
        &self.current_attrs
    }

    /// Whether the alternate screen is active.
    pub fn alternate_screen(&self) -> (r: bool)
        ensures
            r == self@.alt,
    {
        self.alt_screen
    }

    /// Set the scrollback view offset. 0 = live tail; the number of scrollback
    /// rows = oldest.
    pub fn set_scrollback(&mut self, offset: usize)
        requires
            old(self).wf(),
        ensures
            final(self).wf(),
            final(self)@ == (GridV {
                offset: least(offset as int, old(self)@.scrollback.len() as int),
                ..old(self)@
            }),
            final(self).fed() == old(self).fed(),
            final(self).held() == old(self).held(),
    {
        let len: usize = self.scrollback.len();
        self.scrollback_offset = if offset < len {
            offset
        } else {
            len
        };
        assert(self@ =~= GridV {
            offset: least(offset as int, old(self)@.scrollback.len() as int),
            ..old(self)@
        });
    }

    /// Current scrollback view offset.
    pub fn scrollback(&self) -> (r: usize)
        ensures
            r == self@.offset,
    {
        self.scrollback_offset
    }

    /// DECSCUSR cursor style requested by the program (`0` = default).
    pub fn cursor_style(&self) -> (r: u16)
        ensures
            r == self@.modes.cursor_style,
    {
        self.modes.cursor_style
    }

    /// Number of scrollback rows filled.
    pub fn scrollback_len(&self) -> (r: usize)
        ensures
            r == self@.scrollback.len(),
    {
        self.scrollback.len()
    }

    /// Clear the scrollback buffer.
    pub fn clear_scrollback(&mut self)
        requires
            old(self).wf(),
        ensures
            final(self).wf(),
            final(self)@ == (GridV { scrollback: Seq::empty(), offset: 0, ..old(self)@ }),
            final(self).fed() == old(self).fed(),
            final(self).held() == old(self).held(),
    {
        self.drop_scrollback();
    }

    /// Mouse protocol mode.
    pub fn mouse_protocol_mode(&self) -> (r: MouseProtocolMode)
        ensures
            r == self@.modes.mouse_mode,
    {
        self.modes.mouse_mode
    }

    /// Mouse protocol encoding.
    pub fn mouse_protocol_encoding(&self) -> (r: MouseProtocolEncoding)
        ensures
            r == self@.modes.mouse_encoding,
    {
        self.modes.mouse_encoding
    }

    /// Whether the cursor is hidden (DEC 25).
    pub fn hide_cursor(&self) -> (r: bool)
        ensures
            r == self@.modes.hide_cursor,
    {
        self.modes.hide_cursor
    }

    /// Whether bracketed paste is enabled (DEC 2004).
    pub fn bracketed_paste(&self) -> (r: bool)
        ensures
            r == self@.modes.paste,
    {
        self.modes.paste
    }

    /// Whether application cursor keys are enabled (DEC 1).
    pub fn application_cursor(&self) -> (r: bool)
        ensures
            r == self@.modes.app_cursor,
    {
        self.modes.app_cursor
    }

    /// Whether the application keypad is enabled (`ESC =` / `ESC >`).
    pub fn application_keypad(&self) -> (r: bool)
        ensures
            r == self@.modes.keypad,
    {
        self.modes.keypad
    }

    /// Whether autowrap is enabled (DECAWM).
    pub fn autowrap(&self) -> (r: bool)
        ensures
            r == self@.modes.autowrap,
    {
        self.modes.autowrap
    }

    /// What DEC 12 was last set to, if it ever was.
    pub fn text_cursor_enable(&self) -> (r: Option<bool>)
        ensures
            r == self@.modes.text_cursor,
    {
        self.modes.text_cursor
    }

    /// Whether a synchronized update is open (DEC 2026).
    pub fn in_synchronized_update(&self) -> (r: bool)
        ensures
            r == self@.modes.sync_update,
    {
        self.modes.sync_update
    }

    /// Whether the terminal has enabled focus-event reporting (DEC 1004).
    ///
    /// Mirrors the DEC mode state tracked internally so callers do not need
    /// to maintain their own copy by draining `PassthroughEvent::FocusEvents`.
    pub fn focus_events(&self) -> (r: bool)
        ensures
            r == self@.modes.focus,
    {
        self.modes.focus
    }

    /// Top of the kitty-keyboard stack (`0` when empty).
    pub fn kitty_kb_flags(&self) -> (r: u32)
        ensures
            r == if self@.kitty.len() == 0 {
                0
            } else {
                self@.kitty.last()
            },
    {
        let n: usize = self.kitty_kb_stack.len();
        if n == 0 {
            0
        } else {
            self.kitty_kb_stack[n - 1]
        }
    }

    /// Clear the kitty-keyboard stack, so that a full-screen program that
    /// pushed a kitty level cannot leave the following shell prompt in that
    /// mode.
    pub fn clear_kitty_kb_stack(&mut self)
        requires
            old(self).wf(),
        ensures
            final(self).wf(),
            final(self)@ == (GridV { kitty: Seq::empty(), ..old(self)@ }),
            final(self).fed() == old(self).fed(),
            final(self).held() == old(self).held(),
    {
        self.kitty_kb_stack.clear();
        assert(self@ =~= GridV { kitty: Seq::empty(), ..old(self)@ });
    }

    /// Set the default colors reported to OSC 10/11 queries, so that programs
    /// theme against what the operator actually sees. `None` keeps the
    /// current value.
    pub fn set_reported_colors(&mut self, fg: Option<(u8, u8, u8)>, bg: Option<(u8, u8, u8)>)
        requires
            old(self).wf(),
        ensures
            final(self).wf(),
            final(self)@ == (GridV {
                fg: match fg {
                    Some(rgb) => rgb,
                    None => old(self)@.fg,
                },
                bg: match bg {
                    Some(rgb) => rgb,
                    None => old(self)@.bg,
                },
                ..old(self)@
            }),
            final(self).fed() == old(self).fed(),
            final(self).held() == old(self).held(),
    {
        if let Some(fg) = fg {
            self.reported_fg = fg;
        }
        if let Some(bg) = bg {
            self.reported_bg = bg;
        }
        assert(self@ =~= GridV {
            fg: match fg {
                Some(rgb) => rgb,
                None => old(self)@.fg,
            },
            bg: match bg {
                Some(rgb) => rgb,
                None => old(self)@.bg,
            },
            ..old(self)@
        });
    }

    /// Gives every row of the grid up to its arena, for the next grid to use.
    pub fn release(self) {
        let mut grid = self;
        grid.drop_scrollback();
        let arena = grid.arena.clone();
        let mut rows = grid.screen;
        let mut others = grid.hidden;
        recycle_rows(&arena, &mut rows);
        recycle_rows(&arena, &mut others);
    }
}

fn recycle_rows(arena: &crate::arena::RowArena, rows: &mut Vec<crate::write::Row>)
    ensures
        final(rows)@.len() == 0,
{
    let mut row = rows.pop();
    while row.is_some()
        invariant
            row is None ==> rows@.len() == 0,
        decreases rows@.len() + if row is Some {
            1int
        } else {
            0
        },
    {
        if let Some(gone) = row {
            arena.recycle(gone.cells);
        }
        row = rows.pop();
    }
}

} // verus!
