//! The mathematical model of a whole terminal: its state, and what each parsed
//! event does to it.

use crate::bytes::{decimal, hex_byte};
use crate::cell::{bg_attrs, blank_cell, blank_with, plain_attrs, Attrs, CellV, Color, LinkV, UnderlineStyle};
use crate::damage::{all_dirty, clean, dirty_wf, marked, marked_rows, DirtyV};
use crate::model::{
    blank_cells, blank_row_v, cells_deleted, cells_inserted, cells_of, ends_with_zwj, erased, newest,
    put_cluster, repaired, row_blanked, row_wf, rows_down, rows_evicted, rows_resized, rows_unused_above,
    rows_up, rows_used, RowV, RowWrap, ScrollOp,
};
use crate::passthrough::PassV;
use crate::width::{char_columns, cluster_columns};
use vstd::prelude::*;
use vstd::utf8::{decode_utf8, encode_utf8, valid_utf8};

verus! {

/// Mouse protocol modes (DEC modes 1000/1002/1003).
///
/// - `Press` = mode 1000 (report button press only)
/// - `PressRelease` = mode 1002 (report press, release, and button motion)
/// - `ButtonMotion` = mode 1002 alias, identical to `PressRelease`
/// - `AnyEvent` = mode 1003 (report all motion)
/// - `AnyMotion` = mode 1003 alias, identical to `AnyEvent`
#[derive(Debug, Clone, Copy, PartialEq, Eq, Structural)]
pub enum MouseProtocolMode {
    /// No mouse reporting.
    Off,
    /// Mode 1000: report button press only.
    Press,
    /// Mode 1002: report press + release + motion while button held.
    /// Alias: `ButtonMotion`.
    PressRelease,
    /// Mode 1002: identical to `PressRelease`.
    ButtonMotion,
    /// Mode 1003: report all pointer motion.
    /// Alias: `AnyMotion`.
    AnyEvent,
    /// Mode 1003: identical to `AnyEvent`.
    AnyMotion,
}

impl Default for MouseProtocolMode {
    fn default() -> (r: Self)
        ensures
            r == MouseProtocolMode::Off,
    {
        MouseProtocolMode::Off
    }
}

/// Mouse protocol encodings.
#[derive(Debug, Clone, Copy, PartialEq, Eq, Structural)]
pub enum MouseProtocolEncoding {
    /// The encoding of the X10 protocol.
    Default,
    /// Mode 1005.
    Utf8,
    /// Mode 1006.
    Sgr,
    /// Mode 1015.
    Urxvt,
}

impl Default for MouseProtocolEncoding {
    fn default() -> (r: Self)
        ensures
            r == MouseProtocolEncoding::Default,
    {
        MouseProtocolEncoding::Default
    }
}

/// The DEC mode that a mouse mode stands for; `0` for none.
pub open spec fn mouse_mode_of(mode: MouseProtocolMode) -> u16 {
    match mode {
        MouseProtocolMode::Off => 0,
        MouseProtocolMode::Press => 1000,
        MouseProtocolMode::PressRelease => 1002,
        MouseProtocolMode::ButtonMotion => 1002,
        MouseProtocolMode::AnyEvent => 1003,
        MouseProtocolMode::AnyMotion => 1003,
    }
}

/// The DEC mode that a mouse encoding stands for; `0` for the default one.
pub open spec fn mouse_encoding_of(encoding: MouseProtocolEncoding) -> u16 {
    match encoding {
        MouseProtocolEncoding::Default => 0,
        MouseProtocolEncoding::Utf8 => 1005,
        MouseProtocolEncoding::Sgr => 1006,
        MouseProtocolEncoding::Urxvt => 1015,
    }
}

/// An event of the VT parser.
#[allow(inconsistent_fields)]
#[verifier::ext_equal]
pub enum EventV {
    Print(char),
    Execute(u8),
    Csi { params: Seq<Seq<u16>>, intermediates: Seq<u8>, action: char },
    Esc { byte: u8 },
    Osc { params: Seq<Seq<u8>>, bell: bool },
}

/// A saved cursor, and whether it was parked past the last column.
pub struct SavedV {
    pub row: int,
    pub col: int,
    pub parked: bool,
}

/// The modes of a terminal.
#[derive(Debug, Clone, Copy)]
pub struct Modes {
    /// DECAWM.
    pub autowrap: bool,
    /// Application keypad.
    pub keypad: bool,
    /// Application cursor keys.
    pub app_cursor: bool,
    /// Bracketed paste.
    pub paste: bool,
    /// Focus events.
    pub focus: bool,
    pub hide_cursor: bool,
    /// DEC 12, where it was ever set or reset.
    pub text_cursor: Option<bool>,
    /// DEC 2026.
    pub sync_update: bool,
    pub mouse_mode: MouseProtocolMode,
    pub mouse_encoding: MouseProtocolEncoding,
    /// DECSCUSR.
    pub cursor_style: u16,
}

/// The modes at power-on.
pub open spec fn initial_modes() -> Modes {
    Modes {
        autowrap: true,
        keypad: false,
        app_cursor: false,
        paste: false,
        focus: false,
        hide_cursor: false,
        text_cursor: None,
        sync_update: false,
        mouse_mode: MouseProtocolMode::Off,
        mouse_encoding: MouseProtocolEncoding::Default,
        cursor_style: 0,
    }
}

/// The state of a terminal. The cursor is parked past the last column exactly
/// when `col == cols`; a wrap is then pending, unless a soft reset cancelled it.
#[verifier::ext_equal]
pub struct GridV {
    pub rows: int,
    pub cols: int,
    /// The rows that are shown.
    pub screen: Seq<RowV>,
    /// The rows of the other screen.
    pub hidden: Seq<RowV>,
    /// Whether `screen` is the alternate screen.
    pub alt: bool,
    /// History of the primary screen, oldest row first.
    pub scrollback: Seq<RowV>,
    pub limit: int,
    pub offset: int,
    pub row: int,
    pub col: int,
    /// Whether the cursor is parked without a pending wrap.
    pub disarmed: bool,
    pub saved: SavedV,
    pub modes: Modes,
    /// Whether text or a scroll changed the screen since the last preserve.
    pub mutated: bool,
    /// The rows that the last preserve kept.
    pub preserved: Option<Seq<Seq<CellV>>>,
    pub fg: (u8, u8, u8),
    pub bg: (u8, u8, u8),
    pub pen: Attrs,
    pub link: Option<LinkV>,
    pub link_id: u32,
    /// The number given to the newest hyperlink region.
    pub link_serial: u32,
    pub top: int,
    pub bottom: int,
    pub kitty: Seq<u32>,
    pub dirty: DirtyV,
    pub events: Seq<PassV>,
    pub scroll_ops: Seq<ScrollOp>,
    /// Whether the last event was a printed character.
    pub joinable: bool,
}

/// The most kitty-keyboard levels that are kept.
pub const KITTY_KB_STACK_CAP: usize = 64;

/// A screen of `rows` well-formed rows of `cols` cells.
pub open spec fn screen_wf(screen: Seq<RowV>, rows: int, cols: int) -> bool {
    &&& screen.len() == rows
    &&& forall|i: int|
        0 <= i < rows ==> (#[trigger] screen[i]).cells.len() == cols && row_wf(screen[i].cells)
}

/// A well-formed state.
pub open spec fn grid_wf(g: GridV) -> bool {
    &&& 1 <= g.rows <= u16::MAX
    &&& 1 <= g.cols <= u16::MAX
    &&& screen_wf(g.screen, g.rows, g.cols)
    &&& screen_wf(g.hidden, g.rows, g.cols)
    &&& 0 <= g.offset <= g.scrollback.len() <= g.limit <= usize::MAX
    &&& 0 <= g.row < g.rows
    &&& 0 <= g.col <= g.cols
    &&& g.disarmed ==> g.col == g.cols
    &&& 0 <= g.saved.row <= u16::MAX
    &&& 0 <= g.saved.col <= u16::MAX
    &&& 0 <= g.top <= g.bottom < g.rows
    &&& g.top < g.bottom || g.rows == 1
    &&& g.link is None ==> g.link_id == 0
    &&& g.kitty.len() <= KITTY_KB_STACK_CAP
    &&& dirty_wf(g.dirty)
}

/// A screen of default cells.
pub open spec fn blank_screen(rows: int, cols: int) -> Seq<RowV> {
    Seq::new(rows as nat, |i: int| blank_row_v(cols, RowWrap::Hard))
}

/// The state of a fresh terminal.
pub open spec fn fresh(rows: int, cols: int, limit: int) -> GridV {
    GridV {
        rows,
        cols,
        screen: blank_screen(rows, cols),
        hidden: blank_screen(rows, cols),
        alt: false,
        scrollback: Seq::empty(),
        limit,
        offset: 0,
        row: 0,
        col: 0,
        disarmed: false,
        saved: SavedV { row: 0, col: 0, parked: false },
        modes: initial_modes(),
        mutated: false,
        preserved: None,
        fg: (0xe6, 0xe6, 0xe6),
        bg: (0, 0, 0),
        pen: plain_attrs(),
        link: None,
        link_id: 0,
        link_serial: 0,
        top: 0,
        bottom: rows - 1,
        kitty: Seq::empty(),
        dirty: clean(),
        events: Seq::empty(),
        scroll_ops: Seq::empty(),
        joinable: false,
    }
}

// ── Cells of the cursor's row ───────────────────────────────────────────────

/// The cells of the row that the cursor is on.
pub open spec fn line(g: GridV) -> Seq<CellV> {
    g.screen[g.row].cells
}

/// The screen with the cells of one row replaced.
pub open spec fn with_cells(screen: Seq<RowV>, row: int, cells: Seq<CellV>) -> Seq<RowV> {
    screen.update(row, RowV { cells, wrap: screen[row].wrap })
}

/// `n`, but no more than the largest 16-bit number.
pub open spec fn sat16(n: int) -> u16 {
    if n > u16::MAX {
        u16::MAX
    } else {
        n as u16
    }
}

/// The smaller of two numbers.
pub open spec fn least(a: int, b: int) -> int {
    if a < b {
        a
    } else {
        b
    }
}

/// `n`, but at least one: an absent count stands for one.
pub open spec fn at_least_one(n: u16) -> int {
    if n == 0 {
        1
    } else {
        n as int
    }
}

/// `n - 1`, but at least zero: from a one-based to a zero-based position.
pub open spec fn zero_based(n: u16) -> int {
    if n == 0 {
        0
    } else {
        n - 1
    }
}

/// Whether the cell at `col` is the second half of a wide cell.
pub open spec fn splits_at(cells: Seq<CellV>, col: int) -> bool {
    0 < col < cells.len() && cells[col].is_wide_continuation
}

/// The first column that an edit of the columns from `start` on can change.
pub open spec fn touched_from(cells: Seq<CellV>, start: int) -> int {
    if splits_at(cells, start) {
        start - 1
    } else {
        start
    }
}

/// The column behind the last one that an edit of the columns up to `end` can
/// change.
pub open spec fn touched_to(cells: Seq<CellV>, end: int) -> int {
    if splits_at(cells, end) {
        end + 1
    } else {
        end
    }
}

// ── Printing ────────────────────────────────────────────────────────────────

/// Where the line above the cursor continues after a line feed or a wrap.
pub open spec fn newline(g: GridV, wrap: RowWrap) -> GridV {
    if g.row == g.bottom {
        scroll_up(g, 1, wrap)
    } else {
        let row = least(g.row + 1, g.rows - 1);
        GridV { row, screen: g.screen.update(row, RowV { wrap, ..g.screen[row] }), ..g }
    }
}

/// The scroll region moved up by `n` lines. Rows that leave the primary screen
/// at its top enter the scrollback.
pub open spec fn scroll_up(g: GridV, n: int, wrap: RowWrap) -> GridV {
    let moved = if g.top < g.bottom {
        GridV {
            scroll_ops: g.scroll_ops.push(
                ScrollOp::Up { top: g.top as u16, bottom: g.bottom as u16, rows: n as u16 },
            ),
            screen: rows_up(g.screen, g.top, g.bottom, n, g.cols, wrap),
            scrollback: if !g.alt && g.top == 0 && g.limit > 0 {
                newest(g.scrollback + rows_evicted(g.screen, g.bottom, n, g.cols, wrap), g.limit)
            } else {
                g.scrollback
            },
            ..g
        }
    } else {
        g
    };
    GridV { mutated: true, dirty: marked_rows(g.dirty, g.top, g.bottom), ..moved }
}

/// The column of the cluster that the cursor stands behind, or `-1`.
pub open spec fn join_col(g: GridV) -> int {
    let before = if g.col >= g.cols {
        g.cols - 1
    } else {
        g.col - 1
    };
    if before > 0 && line(g)[before].is_wide_continuation {
        before - 1
    } else {
        before
    }
}

/// Whether printing `ch` extends the cluster that the cursor stands behind
/// instead of filling a cell of its own.
pub open spec fn joins(g: GridV, ch: char) -> bool {
    let at = join_col(g);
    at >= 0 && line(g)[at].contents.len() > 0 && (char_columns(ch) == 0 || (g.joinable
        && ends_with_zwj(line(g)[at].contents)))
}

/// The columns that a cell with text takes.
pub open spec fn columns(wide: bool) -> int {
    if wide {
        2
    } else {
        1
    }
}

/// The cluster at column `at` of the cursor's row extended by `ch`. It may
/// grow to two columns, never shrink; a cursor that stood right behind it
/// stays right behind it.
pub open spec fn joined(g: GridV, at: int, ch: char) -> GridV {
    let cells = line(g);
    let old = cells[at];
    let text = old.contents.push(ch);
    let wide = old.is_wide || cluster_columns(text) == 2;
    let put = put_cluster(cells, at, text, wide, old.attrs, old.hyperlink_id, old.hyperlink);
    let behind = least(at + columns(old.is_wide), g.cols);
    GridV {
        screen: with_cells(g.screen, g.row, put),
        col: if g.col == behind {
            least(at + columns(wide), g.cols)
        } else {
            g.col
        },
        dirty: marked(g.dirty, g.row as u16, at as u16, sat16(touched_to(cells, at + 2))),
        ..g
    }
}

/// The character `ch` of `w` columns written into a cell of its own at the
/// cursor, which moves behind it.
pub open spec fn placed(g: GridV, ch: char, w: int) -> GridV {
    let cells = line(g);
    let put = put_cluster(cells, g.col, seq![ch], w == 2, g.pen, g.link_id, g.link);
    GridV {
        screen: with_cells(g.screen, g.row, put),
        col: least(g.col + w, g.cols),
        dirty: marked(
            g.dirty,
            g.row as u16,
            touched_from(cells, g.col) as u16,
            sat16(touched_to(cells, g.col + w)),
        ),
        ..g
    }
}

/// Printing `ch`: it joins the cluster before the cursor, or is dropped where
/// it takes no column and there is none, or fills a cell. With autowrap a
/// parked cursor first moves to the next line, or, where its wrap was
/// cancelled, drops what is printed; without, it writes over the last column,
/// and a wide character that does not fit is dropped.
pub open spec fn print(g: GridV, ch: char) -> GridV {
    let w = char_columns(ch);
    let g1 = GridV { mutated: true, joinable: true, ..g };
    if g.disarmed && g.modes.autowrap {
        g
    } else if joins(g, ch) {
        joined(g1, join_col(g), ch)
    } else if w == 0 {
        g1
    } else if g.col >= g.cols && g.modes.autowrap {
        placed(newline(GridV { col: 0, ..g1 }, RowWrap::Soft), ch, w)
    } else if !g.modes.autowrap && least(g.col, g.cols - 1) + w > g.cols {
        g1
    } else {
        placed(GridV { col: least(g.col, g.cols - 1), disarmed: false, ..g1 }, ch, w)
    }
}

// ── Cursor ──────────────────────────────────────────────────────────────────

/// A parked cursor moved back onto the last column.
pub open spec fn unparked(g: GridV) -> GridV {
    GridV { col: least(g.col, g.cols - 1), disarmed: false, ..g }
}

/// The cursor saved, together with whether it is parked with a wrap pending.
pub open spec fn save_cursor(g: GridV) -> GridV {
    GridV {
        saved: SavedV { row: g.row, col: g.col, parked: g.col >= g.cols && !g.disarmed },
        ..g
    }
}

/// The saved cursor, brought into the screen; parked again if it was.
pub open spec fn restore_cursor(g: GridV) -> GridV {
    GridV {
        row: least(g.saved.row, g.rows - 1),
        col: if g.saved.parked {
            g.cols
        } else {
            least(g.saved.col, g.cols - 1)
        },
        disarmed: false,
        ..g
    }
}

/// The cursor at the given position, brought into the screen.
pub open spec fn move_to(g: GridV, row: int, col: int) -> GridV {
    GridV { row: least(row, g.rows - 1), col: least(col, g.cols - 1), disarmed: false, ..g }
}

/// `a - b`, but at least zero.
pub open spec fn monus(a: int, b: int) -> int {
    if a > b {
        a - b
    } else {
        0
    }
}

// ── Erasing ─────────────────────────────────────────────────────────────────

/// What an erase leaves behind: a blank on the pen's background.
pub open spec fn erase_blank(g: GridV) -> CellV {
    blank_with(bg_attrs(g.pen.background))
}

/// Erase in line: from the cursor (0), up to and with the cursor (1), the
/// whole row (2).
pub open spec fn erase_line(g: GridV, mode: u16) -> GridV {
    let cells = line(g);
    let blank = erase_blank(g);
    if mode == 0 {
        GridV {
            screen: with_cells(g.screen, g.row, erased(cells, g.col, g.cols, blank)),
            dirty: marked(
                g.dirty,
                g.row as u16,
                touched_from(cells, g.col) as u16,
                g.cols as u16,
            ),
            ..g
        }
    } else if mode == 1 {
        let end = least(g.col, g.cols - 1) + 1;
        GridV {
            screen: with_cells(g.screen, g.row, erased(cells, 0, end, blank)),
            dirty: marked(g.dirty, g.row as u16, 0, touched_to(cells, end) as u16),
            ..g
        }
    } else if mode == 2 {
        GridV {
            screen: with_cells(g.screen, g.row, blank_cells(g.cols, blank)),
            dirty: marked(g.dirty, g.row as u16, 0, u16::MAX),
            ..g
        }
    } else {
        g
    }
}

/// The rows of the screen that hold text, with the blank rows between them,
/// moved as a block into the scrollback, once: a clear that finds nothing new,
/// or the very block that was kept last, keeps nothing.
pub open spec fn preserve(g: GridV) -> GridV {
    let first = rows_unused_above(g.screen);
    let last = rows_used(g.screen);
    let block = g.screen.subrange(first, last);
    if g.alt || g.limit == 0 || !g.mutated || last == 0 {
        g
    } else if g.preserved == Some(cells_of(block)) {
        GridV { mutated: false, ..g }
    } else {
        GridV {
            mutated: false,
            preserved: Some(cells_of(block)),
            scrollback: newest(g.scrollback + block, g.limit),
            ..g
        }
    }
}

/// The screen with the rows `from..to` erased.
pub open spec fn rows_blanked(
    screen: Seq<RowV>,
    from: int,
    to: int,
    cols: int,
    blank: CellV,
) -> Seq<RowV> {
    Seq::new(
        screen.len(),
        |i: int|
            if from <= i < to {
                row_blanked(screen[i], cols, blank)
            } else {
                screen[i]
            },
    )
}

/// Erase in display: from the cursor on (0), up to and with the cursor (1),
/// everything (2), everything and the scrollback (3). A clear of the whole
/// screen by 2, or by 0 with the cursor at home, preserves the rows first.
pub open spec fn erase_display(g: GridV, mode: u16) -> GridV {
    let blank = erase_blank(g);
    let cells = line(g);
    let done = if mode == 0 {
        let kept = if g.row == 0 && g.col == 0 {
            preserve(g)
        } else {
            g
        };
        GridV {
            screen: rows_blanked(
                with_cells(g.screen, g.row, erased(cells, g.col, g.cols, blank)),
                g.row + 1,
                g.rows,
                g.cols,
                blank,
            ),
            ..kept
        }
    } else if mode == 1 {
        GridV {
            screen: rows_blanked(
                with_cells(
                    g.screen,
                    g.row,
                    erased(cells, 0, least(g.col, g.cols - 1) + 1, blank),
                ),
                0,
                g.row,
                g.cols,
                blank,
            ),
            ..g
        }
    } else if mode == 2 {
        GridV { screen: rows_blanked(g.screen, 0, g.rows, g.cols, blank), ..preserve(g) }
    } else if mode == 3 {
        GridV {
            screen: rows_blanked(g.screen, 0, g.rows, g.cols, blank),
            scrollback: Seq::empty(),
            offset: 0,
            events: g.events.push(PassV::ScrollbackClear),
            ..g
        }
    } else {
        g
    };
    GridV { dirty: all_dirty(), ..done }
}

/// Erase `n` characters at the cursor.
pub open spec fn erase_chars(g: GridV, n: int) -> GridV {
    let cells = line(g);
    let end = least(g.col + n, g.cols);
    GridV {
        screen: with_cells(g.screen, g.row, erased(cells, g.col, end, erase_blank(g))),
        dirty: marked(
            g.dirty,
            g.row as u16,
            touched_from(cells, g.col) as u16,
            touched_to(cells, end) as u16,
        ),
        ..g
    }
}

/// Insert `n` blank characters at the cursor. A parked cursor inserts nothing.
pub open spec fn insert_chars(g: GridV, n: int) -> GridV {
    let cells = line(g);
    let from = touched_from(cells, g.col);
    if g.col >= g.cols {
        g
    } else {
        GridV {
            screen: with_cells(g.screen, g.row, repaired(cells_inserted(cells, g.col, n))),
            dirty: marked(g.dirty, g.row as u16, from as u16, g.cols as u16),
            ..g
        }
    }
}

/// Delete `n` characters at the cursor. A wide cell that the deletion cuts in
/// two is lost as a whole.
pub open spec fn delete_chars(g: GridV, n: int) -> GridV {
    let cells = line(g);
    let cut = erased(cells, g.col, least(g.col + n, g.cols), blank_cell());
    let from = touched_from(cells, least(g.col, monus(g.cols, n)));
    GridV {
        screen: with_cells(g.screen, g.row, repaired(cells_deleted(cut, g.col, n))),
        dirty: marked(g.dirty, g.row as u16, from as u16, g.cols as u16),
        ..g
    }
}

/// Insert `n` blank lines at the cursor, inside the scroll region only.
pub open spec fn insert_lines(g: GridV, n: int) -> GridV {
    if g.top <= g.row <= g.bottom {
        GridV {
            scroll_ops: g.scroll_ops.push(
                ScrollOp::Down { top: g.row as u16, bottom: g.bottom as u16, rows: n as u16 },
            ),
            screen: rows_down(g.screen, g.row, g.bottom, n, g.cols),
            dirty: all_dirty(),
            ..g
        }
    } else {
        g
    }
}

/// Delete `n` lines at the cursor, inside the scroll region only.
pub open spec fn delete_lines(g: GridV, n: int) -> GridV {
    if g.top <= g.row <= g.bottom {
        GridV {
            scroll_ops: g.scroll_ops.push(
                ScrollOp::Up { top: g.row as u16, bottom: g.bottom as u16, rows: n as u16 },
            ),
            screen: rows_up(g.screen, g.row, g.bottom, n, g.cols, RowWrap::Hard),
            dirty: all_dirty(),
            ..g
        }
    } else {
        g
    }
}

/// The scroll region moved down by `n` lines.
pub open spec fn scroll_down(g: GridV, n: int) -> GridV {
    GridV {
        scroll_ops: g.scroll_ops.push(
            ScrollOp::Down { top: g.top as u16, bottom: g.bottom as u16, rows: n as u16 },
        ),
        screen: rows_down(g.screen, g.top, g.bottom, n, g.cols),
        dirty: all_dirty(),
        ..g
    }
}

/// Set the scroll region, or the whole screen where the margins are not in
/// order, and move the cursor home.
pub open spec fn set_margins(g: GridV, p0: u16, p1: u16) -> GridV {
    let top = zero_based(p0);
    let bottom = if p1 == 0 {
        g.rows - 1
    } else {
        least(zero_based(p1), g.rows - 1)
    };
    GridV {
        top: if top < bottom {
            top
        } else {
            0
        },
        bottom: if top < bottom {
            bottom
        } else {
            g.rows - 1
        },
        row: 0,
        col: 0,
        disarmed: false,
        ..g
    }
}

// ── SGR ─────────────────────────────────────────────────────────────────────

/// The first value of a parameter, or zero.
pub open spec fn first_of(param: Seq<u16>) -> u16 {
    if param.len() == 0 {
        0
    } else {
        param[0]
    }
}

/// The value of parameter `i`, or zero where there is none.
pub open spec fn param_at(params: Seq<Seq<u16>>, i: int) -> u16 {
    if i < params.len() {
        first_of(params[i])
    } else {
        0
    }
}

/// A color channel: `n`, but no more than 255.
pub open spec fn channel(n: u16) -> u8 {
    if n > 255 {
        255
    } else {
        n as u8
    }
}

/// The underline style of SGR `4:n`.
pub open spec fn underline_style(n: u16) -> UnderlineStyle {
    if n == 0 {
        UnderlineStyle::Off
    } else if n == 2 {
        UnderlineStyle::Double
    } else if n == 3 {
        UnderlineStyle::Curly
    } else if n == 4 {
        UnderlineStyle::Dotted
    } else if n == 5 {
        UnderlineStyle::Dashed
    } else {
        UnderlineStyle::Single
    }
}

/// A color out of one value list: `5, index` or `2, [0,] r, g, b`.
pub open spec fn color_values(values: Seq<u16>) -> Option<Color> {
    if values.len() == 0 {
        None
    } else if values[0] == 5 {
        if values.len() >= 2 {
            Some(Color::Idx(channel(values[1])))
        } else {
            None
        }
    } else if values[0] == 2 {
        let start: int = if values.len() >= 5 && values[1] == 0 {
            2
        } else {
            1
        };
        if values.len() >= start + 3 {
            Some(
                Color::Rgb(
                    channel(values[start]),
                    channel(values[start + 1]),
                    channel(values[start + 2]),
                ),
            )
        } else {
            None
        }
    } else {
        None
    }
}

/// An extended color at the head of `params`: from the colon values of the
/// first parameter where it has any, else from the parameters that follow it.
/// With it, the number of parameters that it takes.
pub open spec fn color_at(params: Seq<Seq<u16>>) -> (Option<Color>, int) {
    if params[0].len() > 1 {
        (color_values(params[0].skip(1)), 1)
    } else if params.len() >= 3 && first_of(params[1]) == 5 {
        (Some(Color::Idx(channel(first_of(params[2])))), 3)
    } else if params.len() >= 5 && first_of(params[1]) == 2 {
        (
            Some(
                Color::Rgb(
                    channel(first_of(params[2])),
                    channel(first_of(params[3])),
                    channel(first_of(params[4])),
                ),
            ),
            5,
        )
    } else {
        (None, 1)
    }
}

/// The pen after the SGR parameter at the head of `params`, other than an
/// extended color.
pub open spec fn sgr_simple(pen: Attrs, param: Seq<u16>) -> Attrs {
    let code = first_of(param);
    if code == 0 {
        plain_attrs()
    } else if code == 1 {
        Attrs { bold: true, ..pen }
    } else if code == 2 {
        Attrs { dim: true, ..pen }
    } else if code == 3 {
        Attrs { italic: true, ..pen }
    } else if code == 4 {
        Attrs {
            underline_style: if param.len() > 1 {
                underline_style(param[1])
            } else {
                UnderlineStyle::Single
            },
            ..pen
        }
    } else if code == 5 {
        Attrs { slow_blink: true, ..pen }
    } else if code == 6 {
        Attrs { rapid_blink: true, ..pen }
    } else if code == 7 {
        Attrs { inverse: true, ..pen }
    } else if code == 8 {
        Attrs { conceal: true, ..pen }
    } else if code == 9 {
        Attrs { strikethrough: true, ..pen }
    } else if code == 21 {
        Attrs { underline_style: UnderlineStyle::Double, ..pen }
    } else if code == 22 {
        Attrs { bold: false, dim: false, ..pen }
    } else if code == 23 {
        Attrs { italic: false, ..pen }
    } else if code == 24 {
        Attrs { underline_style: UnderlineStyle::Off, ..pen }
    } else if code == 25 {
        Attrs { slow_blink: false, rapid_blink: false, ..pen }
    } else if code == 27 {
        Attrs { inverse: false, ..pen }
    } else if code == 28 {
        Attrs { conceal: false, ..pen }
    } else if code == 29 {
        Attrs { strikethrough: false, ..pen }
    } else if 30 <= code <= 37 {
        Attrs { foreground: Color::Idx((code - 30) as u8), ..pen }
    } else if code == 39 {
        Attrs { foreground: Color::Default, ..pen }
    } else if 40 <= code <= 47 {
        Attrs { background: Color::Idx((code - 40) as u8), ..pen }
    } else if code == 49 {
        Attrs { background: Color::Default, ..pen }
    } else if code == 53 {
        Attrs { overline: true, ..pen }
    } else if code == 55 {
        Attrs { overline: false, ..pen }
    } else if code == 59 {
        Attrs { underline_color: Color::Default, ..pen }
    } else if 90 <= code <= 97 {
        Attrs { foreground: Color::Idx((code - 82) as u8), ..pen }
    } else if 100 <= code <= 107 {
        Attrs { background: Color::Idx((code - 92) as u8), ..pen }
    } else {
        pen
    }
}

/// The pen with one of its colors replaced: foreground (38), background (48)
/// or underline (58).
pub open spec fn sgr_color(pen: Attrs, code: u16, color: Option<Color>) -> Attrs {
    match color {
        None => pen,
        Some(color) => if code == 38 {
            Attrs { foreground: color, ..pen }
        } else if code == 48 {
            Attrs { background: color, ..pen }
        } else {
            Attrs { underline_color: color, ..pen }
        },
    }
}

/// The pen after the SGR parameters, applied in order.
#[verifier::opaque]
pub open spec fn sgr(pen: Attrs, params: Seq<Seq<u16>>) -> Attrs
    decreases params.len(),
{
    if params.len() == 0 {
        pen
    } else {
        let code = first_of(params[0]);
        if code == 38 || code == 48 || code == 58 {
            let (color, used) = color_at(params);
            sgr(sgr_color(pen, code, color), params.skip(used))
        } else {
            sgr(sgr_simple(pen, params[0]), params.skip(1))
        }
    }
}

/// SGR: without any parameter, a reset.
pub open spec fn apply_sgr(g: GridV, params: Seq<Seq<u16>>) -> GridV {
    GridV {
        pen: if params.len() == 0 {
            plain_attrs()
        } else {
            sgr(g.pen, params)
        },
        ..g
    }
}

// ── Modes ───────────────────────────────────────────────────────────────────

/// The state with the event appended.
pub open spec fn emit(g: GridV, event: PassV) -> GridV {
    GridV { events: g.events.push(event), ..g }
}

/// The state with the given screen shown.
pub open spec fn show_screen(g: GridV, alt: bool) -> GridV {
    if g.alt == alt {
        GridV { dirty: all_dirty(), ..g }
    } else {
        GridV { dirty: all_dirty(), alt, screen: g.hidden, hidden: g.screen, ..g }
    }
}

/// One reset of the kitty keyboard protocol for each of `n` levels.
pub open spec fn kitty_resets(n: nat) -> Seq<PassV> {
    Seq::new(n, |i: int| PassV::UnhandledCsi(encode_utf8("\x1b[<u"@)))
}

/// The mouse mode that a DEC mode stands for, or none.
pub open spec fn mouse_mode_if(on: bool, mode: MouseProtocolMode) -> MouseProtocolMode {
    if on {
        mode
    } else {
        MouseProtocolMode::Off
    }
}

/// The mouse encoding that a DEC mode stands for, or the default one.
pub open spec fn mouse_encoding_if(
    on: bool,
    encoding: MouseProtocolEncoding,
) -> MouseProtocolEncoding {
    if on {
        encoding
    } else {
        MouseProtocolEncoding::Default
    }
}

/// The modes with a DEC private mode switched on or off.
#[verifier::opaque]
pub open spec fn with_mode(m: Modes, mode: u16, on: bool) -> Modes {
    if mode == 1 {
        Modes { app_cursor: on, ..m }
    } else if mode == 7 {
        Modes { autowrap: on, ..m }
    } else if mode == 12 {
        Modes { text_cursor: Some(on), ..m }
    } else if mode == 25 {
        Modes { hide_cursor: !on, ..m }
    } else if mode == 1000 {
        Modes { mouse_mode: mouse_mode_if(on, MouseProtocolMode::Press), ..m }
    } else if mode == 1002 {
        Modes { mouse_mode: mouse_mode_if(on, MouseProtocolMode::ButtonMotion), ..m }
    } else if mode == 1003 {
        Modes { mouse_mode: mouse_mode_if(on, MouseProtocolMode::AnyMotion), ..m }
    } else if mode == 1004 {
        Modes { focus: on, ..m }
    } else if mode == 1005 {
        Modes { mouse_encoding: mouse_encoding_if(on, MouseProtocolEncoding::Utf8), ..m }
    } else if mode == 1006 {
        Modes { mouse_encoding: mouse_encoding_if(on, MouseProtocolEncoding::Sgr), ..m }
    } else if mode == 1015 {
        Modes { mouse_encoding: mouse_encoding_if(on, MouseProtocolEncoding::Urxvt), ..m }
    } else if mode == 2004 {
        Modes { paste: on, ..m }
    } else if mode == 2026 {
        Modes { sync_update: on, ..m }
    } else {
        m
    }
}

/// What is carried out of a switched DEC private mode.
pub open spec fn mode_events(mode: u16, on: bool) -> Seq<PassV> {
    if mode == 1 {
        seq![PassV::ApplicationCursorKeys(on)]
    } else if mode == 1004 {
        seq![PassV::FocusEvents(on)]
    } else if mode == 2004 {
        seq![PassV::BracketedPaste(on)]
    } else {
        Seq::empty()
    }
}

/// Leaving the alternate screen: the cursor is restored, and every kitty
/// keyboard level that was pushed is reset.
pub open spec fn leave_alternate(g: GridV) -> GridV {
    let shown = restore_cursor(show_screen(g, false));
    GridV { kitty: Seq::empty(), events: shown.events + kitty_resets(g.kitty.len()), ..shown }
}

/// Entering the alternate screen: the cursor is saved and moved home.
pub open spec fn enter_alternate(g: GridV) -> GridV {
    GridV { row: 0, col: 0, disarmed: false, ..show_screen(save_cursor(g), true) }
}

/// Switch a DEC private mode on or off.
#[verifier::opaque]
pub open spec fn set_dec_mode(g: GridV, mode: u16, on: bool) -> GridV {
    if mode == 47 || mode == 1047 {
        show_screen(g, on)
    } else if mode == 1049 && on {
        enter_alternate(g)
    } else if mode == 1049 {
        leave_alternate(g)
    } else {
        GridV {
            modes: with_mode(g.modes, mode, on),
            events: g.events + mode_events(mode, on),
            ..g
        }
    }
}

/// Switch the modes that the parameters name, in order.
pub open spec fn set_dec_modes(g: GridV, params: Seq<Seq<u16>>, on: bool) -> GridV
    decreases params.len(),
{
    if params.len() == 0 {
        g
    } else {
        set_dec_mode(set_dec_modes(g, params.drop_last(), on), first_of(params.last()), on)
    }
}

/// A DECRQM status: `1` for a mode that is set, `2` for one that is reset.
pub open spec fn mode_status(on: bool) -> u16 {
    if on {
        1
    } else {
        2
    }
}

/// The DECRQM status of a DEC private mode; `0` for one that is not tracked.
pub open spec fn decrqm(g: GridV, mode: u16) -> u16 {
    if mode == 1 {
        mode_status(g.modes.app_cursor)
    } else if mode == 7 {
        mode_status(g.modes.autowrap)
    } else if mode == 12 {
        mode_status(g.modes.text_cursor == Some(true))
    } else if mode == 25 {
        mode_status(!g.modes.hide_cursor)
    } else if mode == 47 || mode == 1047 || mode == 1049 {
        mode_status(g.alt)
    } else if mode == 1000 || mode == 1002 || mode == 1003 {
        mode_status(mouse_mode_of(g.modes.mouse_mode) == mode)
    } else if mode == 1004 {
        mode_status(g.modes.focus)
    } else if mode == 1005 || mode == 1006 || mode == 1015 {
        mode_status(mouse_encoding_of(g.modes.mouse_encoding) == mode)
    } else if mode == 2004 {
        mode_status(g.modes.paste)
    } else if mode == 2026 {
        mode_status(g.modes.sync_update)
    } else {
        0
    }
}

/// Soft reset. The cursor stays where it is; a pending wrap is cancelled.
pub open spec fn soft_reset(g: GridV) -> GridV {
    save_cursor(
        GridV {
            pen: plain_attrs(),
            top: 0,
            bottom: g.rows - 1,
            modes: Modes { hide_cursor: false, app_cursor: false, paste: false, ..g.modes },
            disarmed: g.col >= g.cols,
            ..g
        },
    )
}

/// Full reset: both screens blank, the cursor home, modes as at power-on.
/// The scrollback, the saved cursor, the cursor style, the kitty stack, the
/// preserve record and what is queued for the caller stay.
pub open spec fn full_reset(g: GridV) -> GridV {
    GridV {
        screen: blank_screen(g.rows, g.cols),
        hidden: blank_screen(g.rows, g.cols),
        alt: false,
        row: 0,
        col: 0,
        disarmed: false,
        pen: plain_attrs(),
        link: None,
        link_id: 0,
        top: 0,
        bottom: g.rows - 1,
        modes: Modes { cursor_style: g.modes.cursor_style, ..initial_modes() },
        offset: 0,
        dirty: all_dirty(),
        ..g
    }
}

// ── Replies and passthrough ─────────────────────────────────────────────────

/// The colon-separated values of one CSI parameter.
pub open spec fn subparam_bytes(param: Seq<u16>) -> Seq<u8>
    decreases param.len(),
{
    if param.len() == 0 {
        Seq::empty()
    } else if param.len() == 1 {
        decimal(param[0] as nat)
    } else {
        subparam_bytes(param.drop_last()).push(0x3a) + decimal(param.last() as nat)
    }
}

/// The semicolon-separated parameters of a CSI sequence.
pub open spec fn params_bytes(params: Seq<Seq<u16>>) -> Seq<u8>
    decreases params.len(),
{
    if params.len() == 0 {
        Seq::empty()
    } else if params.len() == 1 {
        subparam_bytes(params[0])
    } else {
        params_bytes(params.drop_last()).push(0x3b) + subparam_bytes(params.last())
    }
}

/// A CSI sequence put together again from its parts, intermediates first.
pub open spec fn csi_bytes(params: Seq<Seq<u16>>, intermediates: Seq<u8>, final_byte: u8) -> Seq<
    u8,
> {
    (seq![0x1bu8, 0x5bu8] + intermediates + params_bytes(params)).push(final_byte)
}

/// The low byte of a character's code.
pub open spec fn low_byte(ch: char) -> u8 {
    (ch as u32 % 256) as u8
}

/// The cursor position report, one-based; a parked cursor is reported on the
/// last column.
pub open spec fn position_report(g: GridV, dec: bool) -> Seq<u8> {
    let row = sat16(g.row + 1) as nat;
    let col = sat16(least(g.col, g.cols - 1) + 1) as nat;
    if dec {
        encode_utf8("\x1b[?"@) + decimal(row) + encode_utf8(";"@) + decimal(col) + encode_utf8(
            ";1R"@,
        )
    } else {
        encode_utf8("\x1b["@) + decimal(row) + encode_utf8(";"@) + decimal(col) + encode_utf8("R"@)
    }
}

/// The DECRQM reply.
pub open spec fn mode_report(mode: u16, status: u16, dec: bool) -> Seq<u8> {
    encode_utf8(
        if dec {
            "\x1b[?"@
        } else {
            "\x1b["@
        },
    ) + decimal(mode as nat) + encode_utf8(";"@) + decimal(status as nat) + encode_utf8("$y"@)
}

/// The reply to an OSC 10/11 color query: 16-bit channels, each the 8-bit
/// value twice, and the terminator that the query had.
pub open spec fn color_report(code: u8, rgb: (u8, u8, u8), bell: bool) -> Seq<u8> {
    encode_utf8("\x1b]"@) + decimal(code as nat) + encode_utf8(";rgb:"@) + hex_byte(rgb.0)
        + hex_byte(rgb.0) + encode_utf8("/"@) + hex_byte(rgb.1) + hex_byte(rgb.1) + encode_utf8(
        "/"@,
    ) + hex_byte(rgb.2) + hex_byte(rgb.2) + encode_utf8(
        if bell {
            "\x07"@
        } else {
            "\x1b\\"@
        },
    )
}

/// The kitty keyboard stack without its top `n` levels.
pub open spec fn kitty_popped(stack: Seq<u32>, n: int) -> Seq<u32> {
    stack.take(monus(stack.len() as int, n))
}

/// A kitty keyboard push: tracked up to the cap, and forwarded.
pub open spec fn kitty_push(g: GridV, p0: u16) -> GridV {
    let flags = at_least_one(p0);
    emit(
        GridV {
            kitty: if g.kitty.len() < KITTY_KB_STACK_CAP {
                g.kitty.push(flags as u32)
            } else {
                g.kitty
            },
            ..g
        },
        PassV::UnhandledCsi(
            encode_utf8("\x1b[>"@) + decimal(flags as nat) + encode_utf8("u"@),
        ),
    )
}

/// A kitty keyboard pop: tracked, and forwarded.
pub open spec fn kitty_pop(g: GridV, p0: u16) -> GridV {
    let count = at_least_one(p0);
    emit(
        GridV { kitty: kitty_popped(g.kitty, count), ..g },
        PassV::UnhandledCsi(
            encode_utf8("\x1b[<"@) + decimal(count as nat) + encode_utf8("u"@),
        ),
    )
}

/// A reply to a query, sent back to the program.
pub open spec fn reply(g: GridV, text: Seq<char>) -> GridV {
    emit(g, PassV::Reply(encode_utf8(text)))
}

/// A CSI sequence that is not handled: its bytes are carried out as dropped.
pub open spec fn drop_csi(
    g: GridV,
    params: Seq<Seq<u16>>,
    intermediates: Seq<u8>,
    action: char,
) -> GridV {
    emit(g, PassV::DroppedCsi(csi_bytes(params, intermediates, low_byte(action))))
}

// ── Events ──────────────────────────────────────────────────────────────────

/// A control character.
pub open spec fn execute(g: GridV, byte: u8) -> GridV {
    if 0x0a <= byte <= 0x0c {
        newline(unparked(g), RowWrap::Hard)
    } else if byte == 0x0d {
        GridV { col: 0, disarmed: false, ..g }
    } else if byte == 0x08 {
        GridV {
            col: if g.col > 0 {
                g.col - 1
            } else {
                0
            },
            disarmed: false,
            ..g
        }
    } else if byte == 0x09 {
        GridV { col: least((unparked(g).col / 8 + 1) * 8, g.cols - 1), disarmed: false, ..g }
    } else if byte == 0x07 {
        emit(g, PassV::Bell)
    } else {
        g
    }
}

/// A CSI sequence that moves the cursor.
#[verifier::opaque]
pub open spec fn csi_move(g: GridV, p0: u16, p1: u16, action: char) -> GridV {
    let u = unparked(g);
    let n = at_least_one(p0);
    if action == 'A' {
        move_to(u, monus(u.row, n), u.col)
    } else if action == 'B' {
        move_to(u, u.row + n, u.col)
    } else if action == 'C' {
        move_to(u, u.row, u.col + n)
    } else if action == 'D' {
        move_to(u, u.row, monus(u.col, n))
    } else if action == 'E' {
        move_to(u, u.row + n, 0)
    } else if action == 'F' {
        move_to(u, monus(u.row, n), 0)
    } else if action == 'G' {
        move_to(u, u.row, zero_based(p0))
    } else if action == 'd' {
        move_to(u, zero_based(p0), u.col)
    } else if action == 'r' {
        set_margins(u, p0, p1)
    } else {
        move_to(u, zero_based(p0), zero_based(p1))
    }
}

/// Whether a CSI final byte moves the cursor.
pub open spec fn moves_cursor(action: char) -> bool {
    action == 'A' || action == 'B' || action == 'C' || action == 'D' || action == 'E' || action
        == 'F' || action == 'G' || action == 'H' || action == 'f' || action == 'd' || action == 'r'
}

/// A CSI sequence that edits the screen.
#[verifier::opaque]
pub open spec fn csi_edit(g: GridV, p0: u16, action: char) -> GridV {
    let n = at_least_one(p0);
    if action == '@' {
        insert_chars(g, n)
    } else if action == 'J' {
        erase_display(g, p0)
    } else if action == 'K' {
        erase_line(g, p0)
    } else if action == 'L' {
        insert_lines(g, n)
    } else if action == 'M' {
        delete_lines(g, n)
    } else if action == 'P' {
        delete_chars(g, n)
    } else if action == 'S' {
        scroll_up(g, n, RowWrap::Hard)
    } else if action == 'T' {
        scroll_down(g, n)
    } else {
        erase_chars(g, n)
    }
}

/// Whether a CSI final byte edits the screen.
pub open spec fn edits_screen(action: char) -> bool {
    action == '@' || action == 'J' || action == 'K' || action == 'L' || action == 'M' || action
        == 'P' || action == 'S' || action == 'T' || action == 'X'
}

/// A CSI sequence that sets a mode, or asks for or reports something.
#[verifier::opaque]
pub open spec fn csi_other(
    g: GridV,
    params: Seq<Seq<u16>>,
    intermediates: Seq<u8>,
    action: char,
) -> GridV {
    let p0 = param_at(params, 0);
    let bare = intermediates.len() == 0;
    let question = intermediates == seq![0x3fu8];
    let greater = intermediates == seq![0x3eu8];
    if action == 'm' && bare {
        apply_sgr(g, params)
    } else if action == 'h' && question {
        set_dec_modes(g, params, true)
    } else if action == 'l' && question {
        set_dec_modes(g, params, false)
    } else if action == 's' {
        save_cursor(g)
    } else if action == 'u' && bare {
        restore_cursor(g)
    } else if action == 'u' && greater {
        kitty_push(g, p0)
    } else if action == 'u' && intermediates == seq![0x3cu8] {
        kitty_pop(g, p0)
    } else if action == 'u' && question {
        reply(g, "\x1b[?0u"@)
    } else if action == 'c' {
        if bare {
            reply(g, "\x1b[?62c"@)
        } else if greater {
            reply(g, "\x1b[>0;0;0c"@)
        } else {
            g
        }
    } else if action == 'n' && (bare || question) {
        if p0 == 5 {
            reply(g, "\x1b[0n"@)
        } else if p0 == 6 {
            emit(g, PassV::Reply(position_report(g, question)))
        } else {
            g
        }
    } else if action == 'p' && intermediates.contains(0x24) {
        let dec = intermediates.contains(0x3f);
        let status = if dec {
            decrqm(g, p0)
        } else {
            0
        };
        emit(g, PassV::Reply(mode_report(p0, status, dec)))
    } else if action == 'q' && intermediates == seq![0x20u8] {
        GridV { modes: Modes { cursor_style: p0, ..g.modes }, ..g }
    } else if action == 'p' && intermediates == seq![0x21u8] {
        soft_reset(g)
    } else if action == 'm' && greater && p0 == 4 {
        emit(g, PassV::UnhandledCsi(csi_bytes(params, intermediates, low_byte(action))))
    } else if action == 'q' && greater {
        g
    } else {
        drop_csi(g, params, intermediates, action)
    }
}

/// A CSI sequence.
pub open spec fn csi(
    g: GridV,
    params: Seq<Seq<u16>>,
    intermediates: Seq<u8>,
    action: char,
) -> GridV {
    if moves_cursor(action) {
        csi_move(g, param_at(params, 0), param_at(params, 1), action)
    } else if edits_screen(action) {
        csi_edit(g, param_at(params, 0), action)
    } else {
        csi_other(g, params, intermediates, action)
    }
}

/// Reverse index: up one row, or the region down one line at its top.
pub open spec fn reverse_index(g: GridV) -> GridV {
    let u = unparked(g);
    if u.row == u.top {
        scroll_down(u, 1)
    } else {
        GridV { row: monus(u.row, 1), ..u }
    }
}

/// An escape sequence.
pub open spec fn esc(g: GridV, byte: u8) -> GridV {
    if byte == 0x4d {
        reverse_index(g)
    } else if byte == 0x37 {
        save_cursor(g)
    } else if byte == 0x38 {
        restore_cursor(g)
    } else if byte == 0x3d {
        GridV { modes: Modes { keypad: true, ..g.modes }, ..g }
    } else if byte == 0x3e {
        GridV { modes: Modes { keypad: false, ..g.modes }, ..g }
    } else if byte == 0x63 {
        full_reset(g)
    } else {
        g
    }
}

/// The text of OSC parameter `i`, where there is one and it is valid UTF-8.
pub open spec fn osc_text(params: Seq<Seq<u8>>, i: int) -> Option<Seq<char>> {
    if i < params.len() && valid_utf8(params[i]) {
        Some(decode_utf8(params[i]))
    } else {
        None
    }
}

/// A decimal digit.
pub open spec fn is_digit(b: u8) -> bool {
    0x30 <= b <= 0x39
}

/// The number that decimal digits spell.
pub open spec fn digits_value(digits: Seq<u8>) -> nat
    decreases digits.len(),
{
    if digits.len() == 0 {
        0
    } else {
        (10 * digits_value(digits.drop_last()) + (digits.last() - 0x30)) as nat
    }
}

/// The number below 256 that a run of decimal digits spells, if it is one.
pub open spec fn digits_code(digits: Seq<u8>) -> Option<u8> {
    if digits.len() > 0 && (forall|i: int| 0 <= i < digits.len() ==> is_digit(#[trigger] digits[i]))
        && digits_value(digits) <= 255 {
        Some(digits_value(digits) as u8)
    } else {
        None
    }
}

/// The code that an OSC sequence starts with: decimal digits, with a plus sign
/// before them or not, that spell a number below 256.
pub open spec fn osc_code(bytes: Seq<u8>) -> Option<u8> {
    if bytes.len() > 0 && bytes[0] == 0x2b {
        digits_code(bytes.skip(1))
    } else {
        digits_code(bytes)
    }
}

/// The texts of the parameters that are valid UTF-8, joined with semicolons.
pub open spec fn osc_joined(params: Seq<Seq<u8>>) -> Seq<char>
    decreases params.len(),
{
    if params.len() == 0 {
        Seq::empty()
    } else if !valid_utf8(params.last()) {
        osc_joined(params.drop_last())
    } else if forall|i: int| 0 <= i < params.len() - 1 ==> !valid_utf8(#[trigger] params[i]) {
        decode_utf8(params.last())
    } else {
        osc_joined(params.drop_last()) + ";"@ + decode_utf8(params.last())
    }
}

/// The text without the `id=` prefixes at its start.
pub open spec fn without_id(text: Seq<char>) -> Seq<char>
    decreases text.len(),
{
    if text.len() >= 3 && text.take(3) == "id="@ {
        without_id(text.skip(3))
    } else {
        text
    }
}

/// Opening a hyperlink region, or closing it where the URI is empty. Every
/// region gets a number of its own, from 1 on.
pub open spec fn set_link(g: GridV, id: Seq<char>, uri: Seq<char>) -> GridV {
    if uri.len() == 0 {
        GridV { link: None, link_id: 0, ..g }
    } else {
        let serial = if g.link_serial == u32::MAX {
            1
        } else {
            (g.link_serial + 1) as u32
        };
        GridV { link: Some(LinkV { id, uri }), link_id: serial, link_serial: serial, ..g }
    }
}

/// The text of an optional parameter; empty where there is none.
pub open spec fn or_empty(text: Option<Seq<char>>) -> Seq<char> {
    match text {
        Some(t) => t,
        None => Seq::empty(),
    }
}

/// An OSC sequence.
#[verifier::opaque]
pub open spec fn osc_event(g: GridV, params: Seq<Seq<u8>>, bell: bool) -> GridV {
    if params.len() == 0 {
        g
    } else {
        let value = osc_text(params, 1);
        match osc_code(params[0]) {
            None => g,
            Some(code) => if code == 8 {
                set_link(g, without_id(or_empty(value)), or_empty(osc_text(params, 2)))
            } else {
                match value {
                    None => g,
                    Some(text) => if code == 0 || code == 2 {
                        emit(g, PassV::TitleChanged(text))
                    } else if code == 1 {
                        emit(g, PassV::IconNameChanged(text))
                    } else if code == 52 {
                        emit(g, PassV::ClipboardWrite(osc_joined(params.skip(1))))
                    } else if code == 7 {
                        emit(g, PassV::CwdChanged(text))
                    } else if code == 9 || code == 99 {
                        emit(g, PassV::Notification(text))
                    } else if code == 10 && text == "?"@ {
                        emit(g, PassV::Reply(color_report(10, g.fg, bell)))
                    } else if code == 11 && text == "?"@ {
                        emit(g, PassV::Reply(color_report(11, g.bg, bell)))
                    } else {
                        g
                    },
                }
            },
        }
    }
}

/// What one parsed event does. Everything but a printed character ends the
/// run in which a joiner takes in the next character.
pub open spec fn apply(g: GridV, event: EventV) -> GridV {
    match event {
        EventV::Print(ch) => print(g, ch),
        EventV::Execute(byte) => GridV { joinable: false, ..execute(g, byte) },
        EventV::Csi { params, intermediates, action } => GridV {
            joinable: false,
            ..csi(g, params, intermediates, action)
        },
        EventV::Esc { byte } => GridV { joinable: false, ..esc(g, byte) },
        EventV::Osc { params, bell } => GridV { joinable: false, ..osc_event(g, params, bell) },
    }
}

/// What a run of parsed events does.
pub open spec fn apply_all(g: GridV, events: Seq<EventV>) -> GridV
    decreases events.len(),
{
    if events.len() == 0 {
        g
    } else {
        apply(apply_all(g, events.drop_last()), events.last())
    }
}

/// The state fitted to new dimensions: rows and columns are cut or filled up,
/// the cursor is brought into the screen, and the scroll region is reset.
pub open spec fn resized(g: GridV, rows: int, cols: int) -> GridV {
    GridV {
        rows,
        cols,
        screen: rows_resized(g.screen, rows, cols),
        hidden: rows_resized(g.hidden, rows, cols),
        row: least(g.row, rows - 1),
        col: least(g.col, cols - 1),
        disarmed: false,
        top: 0,
        bottom: rows - 1,
        dirty: all_dirty(),
        joinable: false,
        ..g
    }
}

} // verus!
