//! `DamageGrid`: the terminal model. It reads a byte stream, keeps the screen,
//! and records which spans changed.

use crate::arena::{make_blank_grid, RowArena};
use crate::cell::{clone_link, link_view, Attrs, Cell, CellV, Hyperlink};
use crate::compact::{compact_empty, compact_push, compact_text};
use crate::damage::DirtyTracker;
use crate::midseq::{seq_after, SeqState};
use crate::model::{ends_with_zwj, is_vt_control, RowWrap, ScrollOp};
use crate::passthrough::PassthroughBuffer;
use crate::state::{
    columns, fresh, grid_wf, initial_modes, join_col, joined, joins, least, line, placed, print,
    sat16, touched_from, touched_to, GridV, Modes, MouseProtocolEncoding, MouseProtocolMode, SavedV,
};
use crate::stream::{pending, settled};
use crate::vt::{vte_fed, vte_new};
use crate::wellformed::{fresh_wf, newline_wf, print_wf};
use crate::width::{char_columns, display_width, VirtualTerminalProfile};
use crate::write::{cells_view, extend_glyph, rows_view, write_glyph, Row};
use std::collections::VecDeque;
use vstd::prelude::*;

verus! {

/// A saved cursor, and whether it was parked past the last column.
#[derive(Debug, Clone, Copy)]
pub(crate) struct SavedCursor {
    pub(crate) row: u16,
    pub(crate) col: u16,
    pub(crate) parked: bool,
}

/// The terminal model.
///
/// Call `process(bytes)` to feed raw PTY output.  The grid records which
/// spans changed via the dirty tracker.  Call `dirty_spans()` to retrieve
/// and clear the dirty set before rendering.
pub struct DamageGrid {
    // ── Parser — persists across process() calls to handle split sequences ──
    pub(crate) parser: vte::Parser,
    pub(crate) pending_utf8: Vec<u8>,
    pub(crate) seq: SeqState,
    // ── Grid state ──────────────────────────────────────────────────────────
    pub(crate) rows: u16,
    pub(crate) cols: u16,
    /// The rows that are shown.
    pub(crate) screen: Vec<Row>,
    /// The rows of the other screen.
    pub(crate) hidden: Vec<Row>,
    /// True when the alternate screen is shown.
    pub(crate) alt_screen: bool,
    /// Scrollback buffer (primary screen only). Newest entry = last item.
    pub(crate) scrollback: VecDeque<Row>,
    /// Max scrollback rows kept.
    pub(crate) scrollback_limit: usize,
    /// Current scrollback view offset (0 = live tail).
    pub(crate) scrollback_offset: usize,
    /// Where rows come from and go to.
    pub(crate) arena: RowArena,
    // ── Cursor ──────────────────────────────────────────────────────────────
    pub(crate) cursor_row: u16,
    /// The column, or the number of columns while a deferred (DECAWM) wrap is
    /// pending: a printable in the last column parks the cursor there, the
    /// next printable performs the wrap first, and any explicit cursor move
    /// brings it back.
    pub(crate) cursor_col: u16,
    /// True when a soft reset cancelled the wrap of a parked cursor.
    pub(crate) wrap_cancelled: bool,
    pub(crate) saved: SavedCursor,
    // ── Modes ───────────────────────────────────────────────────────────────
    pub(crate) modes: Modes,
    pub(crate) profile: VirtualTerminalProfile,
    /// True when visible-screen content changed since the last ED2/ED0-home
    /// preserve; with the equality check on the block below this makes
    /// preserve-on-clear exactly-once.
    pub(crate) mutated_since_preserve: bool,
    /// The exact rows the last preserve pushed.
    pub(crate) last_preserved_block: Option<Vec<Vec<Cell>>>,
    // ── Reported default colors (OSC 10/11 query replies) ───────────────────
    pub(crate) reported_fg: (u8, u8, u8),
    pub(crate) reported_bg: (u8, u8, u8),
    // ── What newly written cells get ────────────────────────────────────────
    pub(crate) current_attrs: Attrs,
    pub(crate) active_hyperlink: Option<Hyperlink>,
    pub(crate) hyperlink_id: u32,
    pub(crate) hyperlink_serial: u32,
    // ── Scroll region (0-based, inclusive) ──────────────────────────────────
    pub(crate) scroll_top: u16,
    pub(crate) scroll_bottom: u16,
    /// Kitty keyboard protocol stack pushed by the foreground program.
    pub(crate) kitty_kb_stack: Vec<u32>,
    /// Region shifts since the last drain.
    pub(crate) scroll_ops: Vec<ScrollOp>,
    /// Whether the last event was a printed character: only then does a
    /// printable continue a cluster that ends with a joiner.
    pub(crate) last_was_print: bool,
    // ── Damage + passthrough ────────────────────────────────────────────────
    /// The rows and columns that changed.
    pub dirty: DirtyTracker,
    /// What must be handled outside the grid.
    pub passthrough: PassthroughBuffer,
}

/// What the preserved rows hold.
pub open spec fn block_view(block: Seq<Vec<Cell>>) -> Seq<Seq<CellV>> {
    Seq::new(block.len(), |i: int| cells_view(block[i]@))
}

/// What the preserved rows hold, if there are any.
pub open spec fn preserved_view(block: Option<Vec<Vec<Cell>>>) -> Option<Seq<Seq<CellV>>> {
    match block {
        Some(rows) => Some(block_view(rows@)),
        None => None,
    }
}

impl View for DamageGrid {
    type V = GridV;

    open(crate) spec fn view(&self) -> GridV {
        GridV {
            rows: self.rows as int,
            cols: self.cols as int,
            screen: rows_view(self.screen@),
            hidden: rows_view(self.hidden@),
            alt: self.alt_screen,
            scrollback: rows_view(self.scrollback@),
            limit: self.scrollback_limit as int,
            offset: self.scrollback_offset as int,
            row: self.cursor_row as int,
            col: self.cursor_col as int,
            disarmed: self.wrap_cancelled,
            saved: SavedV {
                row: self.saved.row as int,
                col: self.saved.col as int,
                parked: self.saved.parked,
            },
            modes: self.modes,
            mutated: self.mutated_since_preserve,
            preserved: preserved_view(self.last_preserved_block),
            fg: self.reported_fg,
            bg: self.reported_bg,
            pen: self.current_attrs,
            link: link_view(self.active_hyperlink),
            link_id: self.hyperlink_id,
            link_serial: self.hyperlink_serial,
            top: self.scroll_top as int,
            bottom: self.scroll_bottom as int,
            kitty: self.kitty_kb_stack@,
            dirty: self.dirty@,
            events: self.passthrough@,
            scroll_ops: self.scroll_ops@,
            joinable: self.last_was_print,
        }
    }
}

impl DamageGrid {
    /// The bytes that the parser has read.
    pub open(crate) spec fn fed(self) -> Seq<u8> {
        vte_fed(self.parser)
    }

    /// The bytes of a cut UTF-8 sequence that wait for the rest of it.
    pub open(crate) spec fn held(self) -> Seq<u8> {
        self.pending_utf8@
    }

    /// Whether the parser is in the middle of a sequence.
    pub open(crate) spec fn in_sequence(self) -> bool {
        seq_after(SeqState::Ground, self.fed()) != SeqState::Ground
    }

    /// The grid's invariant: the viewed state is well-formed, the parser has
    /// read only whole characters, and what is held back belongs there.
    pub open(crate) spec fn wf(self) -> bool {
        &&& grid_wf(self@)
        &&& self.dirty.wf()
        &&& settled(self.fed())
        &&& pending(self.held()) == self.held()
        &&& self.seq == seq_after(SeqState::Ground, self.fed())
        &&& self.profile.decrqm_mode_2027_status == 0
    }

    /// What the invariant gives of the viewed state.
    pub proof fn lemma_wf(self)
        requires
            self.wf(),
        ensures
            grid_wf(self@),
            settled(self.fed()),
    {
    }

    /// Whether everything but the viewed state is the same.
    pub open(crate) spec fn same_stream(self, other: Self) -> bool {
        &&& self.parser == other.parser
        &&& self.pending_utf8 == other.pending_utf8
        &&& self.seq == other.seq
        &&& self.profile == other.profile
    }

    /// Create a new grid with the given dimensions and scrollback limit.
    /// A grid has at least one row and one column, so that it stays addressable
    /// whatever bytes it reads: a dimension of zero becomes one.
    pub fn new(rows: u16, cols: u16, scrollback_limit: usize) -> (r: Self)
        ensures
            r.wf(),
            r@ == fresh(
                if rows == 0 {
                    1
                } else {
                    rows as int
                },
                if cols == 0 {
                    1
                } else {
                    cols as int
                },
                scrollback_limit as int,
            ),
            r.fed() == Seq::<u8>::empty(),
            r.held() == Seq::<u8>::empty(),
    {
        Self::with_row_arena(rows, cols, scrollback_limit, RowArena::default())
    }

    /// Create a new grid backed by a caller-provided shared row arena. A
    /// dimension of zero becomes one.
    pub fn with_row_arena(
        rows: u16,
        cols: u16,
        scrollback_limit: usize,
        row_arena: RowArena,
    ) -> (r: Self)
        ensures
            r.wf(),
            r@ == fresh(
                if rows == 0 {
                    1
                } else {
                    rows as int
                },
                if cols == 0 {
                    1
                } else {
                    cols as int
                },
                scrollback_limit as int,
            ),
            r.fed() == Seq::<u8>::empty(),
            r.held() == Seq::<u8>::empty(),
    {
        let rows: u16 = if rows == 0 {
            1
        } else {
            rows
        };
        let cols: u16 = if cols == 0 {
            1
        } else {
            cols
        };
        let profile = VirtualTerminalProfile::default();
        let r = DamageGrid {
            parser: vte_new(),
            pending_utf8: Vec::new(),
            seq: SeqState::Ground,
            rows,
            cols,
            screen: make_blank_grid(rows, cols, &row_arena),
            hidden: make_blank_grid(rows, cols, &row_arena),
            alt_screen: false,
            scrollback: VecDeque::new(),
            scrollback_limit,
            scrollback_offset: 0,
            arena: row_arena,
            cursor_row: 0,
            cursor_col: 0,
            wrap_cancelled: false,
            saved: SavedCursor { row: 0, col: 0, parked: false },
            modes: power_on_modes(),
            profile,
            mutated_since_preserve: false,
            last_preserved_block: None,
            reported_fg: profile.default_reported_fg,
            reported_bg: profile.default_reported_bg,
            current_attrs: Attrs::default(),
            active_hyperlink: None,
            hyperlink_id: 0,
            hyperlink_serial: 0,
            scroll_top: 0,
            scroll_bottom: rows - 1,
            kitty_kb_stack: Vec::new(),
            scroll_ops: Vec::new(),
            last_was_print: false,
            dirty: DirtyTracker::new(rows),
            passthrough: PassthroughBuffer::default(),
        };
        proof {
            fresh_wf(rows as int, cols as int, scrollback_limit as int);
            assert(r@ =~= fresh(rows as int, cols as int, scrollback_limit as int));
            assert(crate::stream::non_ascii_tail(Seq::<u8>::empty()) =~= Seq::empty());
            crate::stream::settled_holds_nothing(Seq::empty());
            assert(r.held() =~= Seq::empty());
        }
        r
    }

    // ── Internal grid helpers ───────────────────────────────────────────────
    /// Write a character at the current cursor position, advance cursor.
    pub(crate) fn write_char_at_cursor(&mut self, ch: char)
        requires
            old(self).wf(),
            !is_vt_control(ch),
        ensures
            final(self).wf(),
            final(self).same_stream(*old(self)),
            final(self)@ == print(old(self)@, ch),
    {
        let ghost before = self@;
        proof {
            print_wf(before, ch);
        }
        if self.wrap_cancelled && self.modes.autowrap {
            return ;
        }
        let width: u16 = self.profile.char_width(ch);
        self.mutated_since_preserve = true;
        // Grapheme clustering: zero-width input (combining marks, variation
        // selectors, ZWJ) joins the previously written cell instead of
        // overwriting it, and a character right after a ZWJ continues that
        // cluster.
        if self.append_to_previous_cluster(ch, width) {
            self.last_was_print = true;
            assert(self@ =~= print(before, ch));
            return ;
        }
        self.last_was_print = true;
        if self.cursor_col >= self.cols {
            if self.modes.autowrap {
                // DECAWM deferred wrap: a previous last-column write parked
                // here; perform the wrap before writing.
                self.cursor_col = 0;
                proof {
                    assert(self@ =~= GridV { col: 0, mutated: true, joinable: true, ..before });
                    newline_wf(self@, RowWrap::Soft);
                }
                self.newline_action(RowWrap::Soft);
                self.place_glyph(ch, width);
                return ;
            }
            if width == 2 && self.cols == 1 {
                assert(self@ =~= print(before, ch));
                return ;
            }
        }
        let col: u16 = if self.cursor_col >= self.cols {
            self.cols - 1
        } else {
            self.cursor_col
        };
        if !self.modes.autowrap && width == 2 && col == self.cols - 1 {
            assert(self@ =~= print(before, ch));
            return ;
        }
        self.cursor_col = col;
        self.wrap_cancelled = false;
        proof {
            assert(self@ =~= GridV {
                col: least(before.col, before.cols - 1),
                disarmed: false,
                mutated: true,
                joinable: true,
                ..before
            });
        }
        self.place_glyph(ch, width);
    }

    /// Writes a character of one or two columns at the cursor.
    fn place_glyph(&mut self, ch: char, width: u16)
        requires
            grid_wf(old(self)@),
            old(self).dirty.wf(),
            old(self).cursor_col < old(self).cols,
            width == 1 || width == 2,
        ensures
            final(self).dirty.wf(),
            final(self).same_stream(*old(self)),
            final(self)@ == placed(old(self)@, ch, width as int),
    {
        let ghost before = self@;
        let row: usize = self.cursor_row as usize;
        let col: usize = self.cursor_col as usize;
        let ghost cells = line(before);
        assert(self.screen@[row as int]@ == before.screen[row as int]);
        assert(cells.len() == before.cols);
        let start: u16 = self.touched_start(self.cursor_col);
        let end: u16 = self.touched_end(self.cursor_col as u32 + width as u32);
        let mut contents = compact_empty();
        compact_push(&mut contents, ch);
        let cell = Cell {
            contents,
            is_wide: width == 2,
            is_wide_continuation: false,
            hyperlink_id: self.hyperlink_id,
            attrs: self.current_attrs,
            hyperlink: clone_link(&self.active_hyperlink),
        };
        assert(cell@.contents =~= seq![ch]);
        write_glyph(self.screen[row].cells.as_mut_slice(), col, cell, width);
        assert(rows_view(self.screen@) =~= placed(before, ch, width as int).screen);
        self.dirty.mark_range(self.cursor_row, start, end);
        self.cursor_col = if self.cols - self.cursor_col <= width {
            self.cols
        } else {
            self.cursor_col + width
        };
        assert(self@ =~= placed(before, ch, width as int));
    }

    /// The first column that an edit from `col` on can change.
    pub(crate) fn touched_start(&self, col: u16) -> (r: u16)
        requires
            grid_wf(self@),
            col <= self.cols,
        ensures
            r == touched_from(line(self@), col as int),
    {
        assert(self.screen@[self.cursor_row as int]@ == self@.screen[self@.row]);
        if col > 0 && col < self.cols && self.screen[self.cursor_row as usize].cells[col as usize].is_wide_continuation {
            col - 1
        } else {
            col
        }
    }

    /// The column behind the last one that an edit up to `end` can change, as a
    /// 16-bit number.
    pub(crate) fn touched_end(&self, end: u32) -> (r: u16)
        requires
            grid_wf(self@),
            end <= self.cols + 2,
        ensures
            r == sat16(touched_to(line(self@), end as int)),
    {
        assert(self.screen@[self.cursor_row as int]@ == self@.screen[self@.row]);
        let last: u32 = if end > 0 && end < self.cols as u32 && self.screen[self.cursor_row as usize].cells[end as usize].is_wide_continuation {
            end + 1
        } else {
            end
        };
        if last > 0xffff {
            0xffff
        } else {
            last as u16
        }
    }

    /// Join `ch` to the cluster in the previously written cell when it is
    /// zero-width (combining mark, VS16, ZWJ) or continues a ZWJ sequence.
    /// Returns true when the character was absorbed.
    fn append_to_previous_cluster(&mut self, ch: char, width: u16) -> (r: bool)
        requires
            grid_wf(old(self)@),
            old(self).dirty.wf(),
            width == char_columns(ch),
        ensures
            final(self).dirty.wf(),
            final(self).same_stream(*old(self)),
            r == (joins(old(self)@, ch) || width == 0),
            final(self)@ == if joins(old(self)@, ch) {
                joined(old(self)@, join_col(old(self)@), ch)
            } else {
                old(self)@
            },
    {
        let ghost before = self@;
        let ghost cells = line(before);
        let zero_width = width == 0;
        let row: usize = self.cursor_row as usize;
        assert(self.screen@[row as int]@ == before.screen[row as int]);
        assert(cells.len() == before.cols);
        if self.cursor_col == 0 {
            // Nothing before the cursor: drop a combining mark.
            return zero_width;
        }
        let mut col: usize = if self.cursor_col >= self.cols {
            self.cols as usize - 1
        } else {
            self.cursor_col as usize - 1
        };
        // Step from a continuation cell back to its wide lead.
        if col > 0 && self.screen[row].cells[col].is_wide_continuation {
            col = col - 1;
        }
        assert(col == join_col(before));
        assert(self.screen@[row as int].cells@[col as int]@ == cells[col as int]);
        if !self.screen[row].cells[col].has_contents() {
            // Nothing to join — drop the orphan mark.
            return zero_width;
        }
        if !zero_width && !(self.last_was_print && ends_in_joiner(
            self.screen[row].cells[col].contents(),
        )) {
            return false;
        }
        assert(joins(before, ch));
        self.join_cluster(col as u16, ch);
        true
    }

    /// Extends the cluster at `col` of the cursor's row by `ch`.
    fn join_cluster(&mut self, col: u16, ch: char)
        requires
            grid_wf(old(self)@),
            old(self).dirty.wf(),
            col < old(self).cols,
            line(old(self)@)[col as int].contents.len() > 0,
        ensures
            final(self).dirty.wf(),
            final(self).same_stream(*old(self)),
            final(self)@ == joined(old(self)@, col as int, ch),
    {
        let ghost before = self@;
        let ghost cells = line(before);
        let row: usize = self.cursor_row as usize;
        let at: usize = col as usize;
        assert(self.screen@[row as int]@ == before.screen[row as int]);
        assert(self.screen@[row as int].cells@[at as int]@ == cells[at as int]);
        let was_wide = self.screen[row].cells[at].is_wide;
        let mut text = crate::compact::compact_clone(&self.screen[row].cells[at].contents);
        compact_push(&mut text, ch);
        let wide = was_wide || display_width(compact_text(&text)) == 2;
        let end: u16 = self.touched_end(col as u32 + 2);
        let width: u16 = if wide {
            2
        } else {
            1
        };
        extend_glyph(self.screen[row].cells.as_mut_slice(), at, ch, width);
        assert(rows_view(self.screen@) =~= joined(before, col as int, ch).screen);
        self.dirty.mark_range(self.cursor_row, col, end);
        // The cursor rides the trailing edge of the cluster.
        let old_edge: u16 = self.edge_behind(col, was_wide);
        if self.cursor_col == old_edge {
            self.cursor_col = self.edge_behind(col, wide);
        }
        assert(self@ =~= joined(before, col as int, ch));
    }

    /// The column behind a cell at `col`, or the parked column.
    fn edge_behind(&self, col: u16, wide: bool) -> (r: u16)
        requires
            col < self.cols,
        ensures
            r == least(col + columns(wide), self.cols as int),
    {
        let width: u16 = if wide {
            2
        } else {
            1
        };
        if self.cols - col <= width {
            self.cols
        } else {
            col + width
        }
    }
}

/// The modes at power-on.
pub(crate) fn power_on_modes() -> (r: Modes)
    ensures
        r == initial_modes(),
{
    Modes {
        autowrap: true,
        keypad: false,
        app_cursor: false,
        paste: false,
        focus: false,
        hide_cursor: false,
        text_cursor: None,
        sync_update: false,
        mouse_mode: MouseProtocolMode::Off,
        mouse_encoding: MouseProtocolEncoding::Default,
        cursor_style: 0,
    }
}

/// Whether the text ends with a zero-width joiner.
pub(crate) fn ends_in_joiner(text: &str) -> (r: bool)
    ensures
        r == ends_with_zwj(text@),
{
    let n: usize = text.unicode_len();
    n > 0 && text.get_char(n - 1) == '\u{200d}'
}

} // verus!
