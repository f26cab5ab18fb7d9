//! How a state is written out: the steps that paint the screen, restore the
//! cursor, and set the modes.
//!
//! # The replay contract
//!
//! Replaying the steps of [`state_ops`] on a fresh terminal of the same
//! dimensions gives the same state, where "state" is:
//!
//! - visible cells: contents, `is_wide`/`is_wide_continuation` flags, and the
//!   full SGR attribute set;
//! - the cursor position, including a parked cursor (`col == cols`);
//! - the pen;
//! - DECAWM, application keypad, application cursor keys, bracketed paste,
//!   mouse mode and encoding, alternate screen, cursor visibility, and style.
//!
//! Outside the contract are the scrollback, the scroll region, the saved
//! cursor, how rows wrap, hyperlinks, DEC 12, DEC 2026, focus events, and what
//! is queued for the caller. Row painting relies on the parked cursor, so it
//! switches DECAWM on first and, where the state has it off, off at the end.

use crate::cell::{blank_cell, plain_attrs, Attrs, CellV, Color, UnderlineStyle};
use crate::model::{blank_cells, ends_with_zwj, RowWrap};
use crate::ops::PaintOp;
use crate::state::{least, mouse_encoding_of, mouse_mode_of, GridV};
use vstd::prelude::*;

verus! {

/// A position of the cursor.
pub struct PosV {
    pub row: int,
    pub col: int,
}

/// The steps written so far, and the cursor and pen that they lead to.
#[verifier::ext_equal]
pub struct PaintV {
    pub ops: Seq<PaintOp>,
    pub pos: PosV,
    pub pen: Attrs,
}

// ── Attributes ──────────────────────────────────────────────────────────────

/// A single-valued parameter.
pub open spec fn one(n: int) -> Seq<Seq<u16>> {
    seq![seq![n as u16]]
}

/// The parameters that select a color in the long form.
pub open spec fn long_color(code: int, color: Color) -> Seq<Seq<u16>> {
    match color {
        Color::Default => seq![],
        Color::Idx(i) => one(code) + one(5) + one(i as int),
        Color::Rgb(r, g, b) => one(code) + one(2) + one(r as int) + one(g as int) + one(b as int),
    }
}

/// The parameters that turn the foreground into `target`.
#[verifier::opaque]
pub open spec fn foreground_params(target: Attrs, prev: Attrs) -> Seq<Seq<u16>> {
    if target.foreground == prev.foreground {
        seq![]
    } else {
        match target.foreground {
            Color::Default => one(39),
            Color::Idx(i) => if i < 8 {
                one(i + 30)
            } else if i < 16 {
                one(i + 82)
            } else {
                long_color(38, target.foreground)
            },
            Color::Rgb(..) => long_color(38, target.foreground),
        }
    }
}

/// The parameters that turn the background into `target`.
#[verifier::opaque]
pub open spec fn background_params(target: Attrs, prev: Attrs) -> Seq<Seq<u16>> {
    if target.background == prev.background {
        seq![]
    } else {
        match target.background {
            Color::Default => one(49),
            Color::Idx(i) => if i < 8 {
                one(i + 40)
            } else if i < 16 {
                one(i + 92)
            } else {
                long_color(48, target.background)
            },
            Color::Rgb(..) => long_color(48, target.background),
        }
    }
}

/// The parameters for bold and dim: 22 clears both, so the one that stays is
/// set again.
#[verifier::opaque]
pub open spec fn intensity_params(target: Attrs, prev: Attrs) -> Seq<Seq<u16>> {
    if target.bold == prev.bold && target.dim == prev.dim {
        seq![]
    } else if target.bold && target.dim {
        one(1) + one(2)
    } else if target.bold {
        one(22) + one(1)
    } else if target.dim {
        one(22) + one(2)
    } else {
        one(22)
    }
}

/// The parameter that switches an attribute: `on` or `off`, if it differs.
#[verifier::opaque]
pub open spec fn switch_params(target: bool, prev: bool, on: int, off: int) -> Seq<Seq<u16>> {
    if target == prev {
        seq![]
    } else if target {
        one(on)
    } else {
        one(off)
    }
}

/// The parameters for the underline style.
#[verifier::opaque]
pub open spec fn underline_params(target: Attrs, prev: Attrs) -> Seq<Seq<u16>> {
    if target.underline_style == prev.underline_style {
        seq![]
    } else {
        match target.underline_style {
            UnderlineStyle::Off => one(24),
            UnderlineStyle::Single => one(4),
            UnderlineStyle::Double => seq![seq![4u16, 2u16]],
            UnderlineStyle::Curly => seq![seq![4u16, 3u16]],
            UnderlineStyle::Dotted => seq![seq![4u16, 4u16]],
            UnderlineStyle::Dashed => seq![seq![4u16, 5u16]],
        }
    }
}

/// The parameters for the underline color.
#[verifier::opaque]
pub open spec fn underline_color_params(target: Attrs, prev: Attrs) -> Seq<Seq<u16>> {
    if target.underline_color == prev.underline_color {
        seq![]
    } else if target.underline_color == Color::Default {
        one(59)
    } else {
        long_color(58, target.underline_color)
    }
}

/// The parameters for the two blinks, which 25 clears together.
#[verifier::opaque]
pub open spec fn blink_params(target: Attrs, prev: Attrs) -> Seq<Seq<u16>> {
    if target.slow_blink == prev.slow_blink && target.rapid_blink == prev.rapid_blink {
        seq![]
    } else {
        (if prev.slow_blink || prev.rapid_blink {
            one(25)
        } else {
            seq![]
        }) + (if target.slow_blink {
            one(5)
        } else {
            seq![]
        }) + (if target.rapid_blink {
            one(6)
        } else {
            seq![]
        })
    }
}

/// The SGR parameters that turn the attributes `prev` into `target`.
pub open spec fn sgr_params(target: Attrs, prev: Attrs) -> Seq<Seq<u16>> {
    foreground_params(target, prev) + background_params(target, prev) + intensity_params(
        target,
        prev,
    ) + switch_params(target.italic, prev.italic, 3, 23) + underline_params(target, prev)
        + underline_color_params(target, prev) + switch_params(target.inverse, prev.inverse, 7, 27)
        + switch_params(target.strikethrough, prev.strikethrough, 9, 29) + blink_params(
        target,
        prev,
    ) + switch_params(target.conceal, prev.conceal, 8, 28) + switch_params(
        target.overline,
        prev.overline,
        53,
        55,
    )
}

/// The steps that turn the pen `prev` into `target`.
pub open spec fn attrs_ops(target: Attrs, prev: Attrs) -> Seq<PaintOp> {
    if target == prev {
        seq![]
    } else if target == plain_attrs() {
        seq![PaintOp::Sgr(seq![])]
    } else {
        seq![PaintOp::Sgr(sgr_params(target, prev))]
    }
}

/// The steps with the pen turned into `target`.
pub open spec fn with_pen(p: PaintV, target: Attrs) -> PaintV {
    PaintV { ops: p.ops + attrs_ops(target, p.pen), pen: target, ..p }
}

// ── Cursor moves ────────────────────────────────────────────────────────────

/// The steps that take the cursor from one position to another.
pub open spec fn move_ops(from: PosV, to: PosV) -> Seq<PaintOp> {
    if to.row == from.row + 1 && to.col == 0 {
        seq![PaintOp::Return, PaintOp::Feed]
    } else if from.row == to.row && from.col < to.col {
        seq![PaintOp::Forward(to.col - from.col)]
    } else if to != from {
        seq![PaintOp::MoveTo(to.row, to.col)]
    } else {
        seq![]
    }
}

/// The steps with the cursor taken to `to`.
pub open spec fn moved(p: PaintV, to: PosV) -> PaintV {
    PaintV { ops: p.ops + move_ops(p.pos, to), pos: to, ..p }
}

/// The steps with the cursor taken to `to` by an absolute move.
pub open spec fn jumped(p: PaintV, to: PosV) -> PaintV {
    PaintV { ops: p.ops.push(PaintOp::MoveTo(to.row, to.col)), pos: to, ..p }
}

/// The step that prints `ch`.
pub open spec fn print_op(ch: char) -> PaintOp {
    PaintOp::Print(ch)
}

/// The characters of `text`, printed one after the other.
pub open spec fn text_ops(text: Seq<char>) -> Seq<PaintOp>
    decreases text.len(),
{
    if text.len() == 0 {
        Seq::empty()
    } else {
        text_ops(text.drop_last()).push(print_op(text.last()))
    }
}

// ── Rows ────────────────────────────────────────────────────────────────────

/// The cluster whose last column is `col`, stepping back from a continuation.
pub open spec fn cluster_ending_at(cells: Seq<CellV>, col: int) -> CellV {
    if cells[col].is_wide_continuation && col > 0 {
        cells[col - 1]
    } else {
        cells[col]
    }
}

/// Whether a character printed at `col` right after its left neighbor would
/// join that neighbor's cluster.
pub open spec fn join_hazard(cells: Seq<CellV>, col: int) -> bool {
    col > 0 && ends_with_zwj(cluster_ending_at(cells, col - 1).contents)
}

/// What is painted: a row, what the destination shows in it, and the row
/// above, whose last cluster a wrapping print could join.
pub struct RowJob {
    pub row: int,
    pub cols: int,
    /// Whether the row continues the one above it.
    pub wrapping: bool,
    pub above: Option<Seq<CellV>>,
    pub cells: Seq<CellV>,
    pub prev: Seq<CellV>,
}

/// Whether a print that wraps into the row would join the row above.
pub open spec fn wrap_hazard(job: RowJob) -> bool {
    match job.above {
        None => false,
        Some(above) => above.len() > 0 && ends_with_zwj(
            cluster_ending_at(above, above.len() - 1).contents,
        ),
    }
}

/// Whether the cursor is parked at the end of the row above.
pub open spec fn parked_above(p: PaintV, job: RowJob) -> bool {
    p.pos.row + 1 == job.row && p.pos.col >= job.cols
}

/// The steps with the cursor taken to column `col` of the row before text is
/// written there: not at all where the pending wrap takes it there, absolutely
/// where the text would otherwise join a cluster before it.
pub open spec fn content_moved(p: PaintV, job: RowJob, col: int) -> PaintV {
    let to = PosV { row: job.row, col };
    if p.pos != to {
        if job.wrapping && parked_above(p, job) && col == 0 {
            if wrap_hazard(job) {
                jumped(p, to)
            } else {
                PaintV { pos: to, ..p }
            }
        } else {
            moved(p, to)
        }
    } else if join_hazard(job.cells, col) {
        jumped(p, to)
    } else {
        p
    }
}

/// The steps with the text of the cell at `col` written.
pub open spec fn content_written(p: PaintV, job: RowJob, col: int) -> PaintV {
    let cell = job.cells[col];
    let q = with_pen(content_moved(p, job, col), cell.attrs);
    PaintV {
        ops: q.ops + text_ops(cell.contents),
        pos: PosV {
            row: job.row,
            col: least(
                col + (if cell.is_wide {
                    2int
                } else {
                    1int
                }),
                job.cols,
            ),
        },
        ..q
    }
}

/// A run of blanks that is still to be erased: where it starts, and the
/// attributes that its blanks carry.
pub struct RunV {
    pub start: int,
    pub attrs: Attrs,
}

/// The steps with the run erased, up to column `end`, or to the end of the row
/// where `end` is not given.
pub open spec fn run_flushed(p: PaintV, row: int, run: Option<RunV>, end: Option<int>) -> PaintV {
    match run {
        None => p,
        Some(run) => {
            let q = with_pen(moved(p, PosV { row, col: run.start }), run.attrs);
            PaintV {
                ops: q.ops.push(
                    match end {
                        Some(end) => PaintOp::EraseChars(end - run.start),
                        None => PaintOp::EraseLine,
                    },
                ),
                ..q
            }
        },
    }
}

/// Whether the run ends before the cell.
pub open spec fn run_ends(run: Option<RunV>, cell: CellV) -> bool {
    match run {
        None => false,
        Some(run) => cell.contents.len() > 0 || cell.attrs != run.attrs,
    }
}

/// The columns of the row before `col` painted, and the run that is still to
/// be erased. The second column of a wide cell is painted with the first.
pub open spec fn columns_painted(p: PaintV, job: RowJob, col: int) -> (PaintV, Option<RunV>)
    decreases col,
{
    if col <= 0 {
        (p, None)
    } else {
        let (q, run) = columns_painted(p, job, col - 1);
        if col >= 2 && job.cells[col - 2].is_wide {
            (q, run)
        } else {
            column_painted(q, run, job, col - 1)
        }
    }
}

/// The column `col` painted.
pub open spec fn column_painted(p: PaintV, run: Option<RunV>, job: RowJob, col: int) -> (
    PaintV,
    Option<RunV>,
) {
    let cell = job.cells[col];
    let ends = run_ends(run, cell);
    let q = if ends {
        run_flushed(p, job.row, run, Some(col))
    } else {
        p
    };
    let left = if ends {
        None
    } else {
        run
    };
    if cell == job.prev[col] {
        (q, left)
    } else if cell.contents.len() > 0 {
        (content_written(q, job, col), left)
    } else if left is None {
        (q, Some(RunV { start: col, attrs: cell.attrs }))
    } else {
        (q, left)
    }
}

/// The row painted over what the destination shows in it.
pub open spec fn row_painted(p: PaintV, job: RowJob) -> PaintV {
    let (q, run) = columns_painted(p, job, job.cols);
    run_flushed(q, job.row, run, None)
}

/// The start of a row that is painted over blanks. Where the row continues the
/// one above and starts with a blank, a pending wrap is carried out with a
/// space that is erased again.
pub open spec fn row_entered(p: PaintV, job: RowJob) -> PaintV {
    let home = PosV { row: job.row, col: 0 };
    if job.wrapping && job.cells[0] == blank_cell() {
        if parked_above(p, job) && !wrap_hazard(job) {
            let q = with_pen(p, plain_attrs());
            PaintV {
                ops: q.ops + seq![PaintOp::Print(' '), PaintOp::Back, PaintOp::EraseChars(1)],
                pos: home,
                ..q
            }
        } else {
            jumped(p, home)
        }
    } else {
        p
    }
}

/// The start of a row that is painted over a previous state. Where the row now
/// continues the one above and did not before, a pending wrap is carried out
/// by writing its first cell once more.
pub open spec fn row_reentered(p: PaintV, job: RowJob, prev_wrapping: bool) -> PaintV {
    let first = job.cells[0];
    if job.wrapping && !prev_wrapping && first == job.prev[0] && parked_above(p, job)
        && !wrap_hazard(job) {
        let q = with_pen(p, first.attrs);
        let blank = first.contents.len() == 0;
        PaintV {
            ops: q.ops + text_ops(
                if blank {
                    seq![' ']
                } else {
                    first.contents
                },
            ) + seq![PaintOp::Back] + (if first.is_wide {
                seq![PaintOp::Back]
            } else {
                seq![]
            }) + (if blank {
                seq![PaintOp::EraseChars(1)]
            } else {
                seq![]
            }),
            pos: PosV { row: job.row, col: 0 },
            ..q
        }
    } else {
        p
    }
}

// ── Screens ─────────────────────────────────────────────────────────────────

/// Whether row `row` of the screen continues the one above it.
pub open spec fn continues(g: GridV, row: int) -> bool {
    0 < row < g.screen.len() && g.screen[row].wrap == RowWrap::Soft
}

/// The cells of the row above `row`, if there is one.
pub open spec fn row_above(g: GridV, row: int) -> Option<Seq<CellV>> {
    if row > 0 {
        Some(g.screen[row - 1].cells)
    } else {
        None
    }
}

/// Painting row `row` of the screen over blanks.
pub open spec fn fresh_job(g: GridV, row: int) -> RowJob {
    RowJob {
        row,
        cols: g.cols,
        wrapping: continues(g, row),
        above: row_above(g, row),
        cells: g.screen[row].cells,
        prev: blank_cells(g.cols, blank_cell()),
    }
}

/// Painting row `row` of the screen over the state `prev`.
pub open spec fn diff_job(g: GridV, prev: GridV, row: int) -> RowJob {
    RowJob { prev: prev.screen[row].cells, ..fresh_job(g, row) }
}

/// The first `n` rows painted over blanks.
pub open spec fn rows_painted(p: PaintV, g: GridV, n: int) -> PaintV
    decreases n,
{
    if n <= 0 {
        p
    } else {
        let job = fresh_job(g, n - 1);
        row_painted(row_entered(rows_painted(p, g, n - 1), job), job)
    }
}

/// The first `n` rows painted over the state `prev`.
pub open spec fn rows_repainted(p: PaintV, g: GridV, prev: GridV, n: int) -> PaintV
    decreases n,
{
    if n <= 0 {
        p
    } else {
        let job = diff_job(g, prev, n - 1);
        let q = row_reentered(
            rows_repainted(p, g, prev, n - 1),
            job,
            continues(prev, n - 1),
        );
        row_painted(q, job)
    }
}

/// The cursor taken to where the state has it. A parked cursor is parked again
/// by writing the last cell of its row once more; where that is blank, by a
/// space that is erased from under the saved cursor.
pub open spec fn cursor_restored(p: PaintV, g: GridV) -> Seq<PaintOp> {
    let cursor = PosV { row: g.row, col: g.col };
    if p.pos != cursor && g.col >= g.cols {
        let cells = g.screen[g.row].cells;
        let last = cells[g.cols - 1];
        let lead = if last.is_wide_continuation && g.cols >= 2 {
            g.cols - 2
        } else {
            g.cols - 1
        };
        let cell = cells[lead];
        if cell.contents.len() > 0 {
            p.ops + seq![PaintOp::MoveTo(g.row, lead)] + attrs_ops(cell.attrs, p.pen) + text_ops(
                cell.contents,
            ) + attrs_ops(p.pen, cell.attrs)
        } else {
            p.ops + seq![PaintOp::MoveTo(g.row, g.cols - 1), PaintOp::Print(' ')] + attrs_ops(
                last.attrs,
                p.pen,
            ) + seq![PaintOp::Save, PaintOp::Back, PaintOp::EraseChars(1), PaintOp::Restore]
                + attrs_ops(p.pen, last.attrs)
        }
    } else {
        p.ops + move_ops(p.pos, cursor)
    }
}

/// The cursor and the pen taken to what the state has.
pub open spec fn paint_finished(p: PaintV, g: GridV) -> Seq<PaintOp> {
    cursor_restored(p, g) + attrs_ops(g.pen, p.pen)
}

/// The whole screen painted: reset, clear, then every row.
pub open spec fn full_paint(g: GridV) -> Seq<PaintOp> {
    let start = PaintV {
        ops: seq![PaintOp::Sgr(seq![]), PaintOp::MoveTo(0, 0), PaintOp::EraseDisplay],
        pos: PosV { row: 0, col: 0 },
        pen: plain_attrs(),
    };
    paint_finished(rows_painted(start, g, g.rows), g)
}

/// The screen painted over the state `prev`.
pub open spec fn repaint(g: GridV, prev: GridV) -> Seq<PaintOp> {
    let start = PaintV {
        ops: seq![],
        pos: PosV { row: prev.row, col: prev.col },
        pen: prev.pen,
    };
    paint_finished(rows_repainted(start, g, prev, g.rows), g)
}

/// DECAWM switched off at the end, where the state has it off.
pub open spec fn autowrap_off(g: GridV) -> Seq<PaintOp> {
    if g.modes.autowrap {
        seq![]
    } else {
        seq![PaintOp::Mode(7, false)]
    }
}

/// The steps that reproduce the visible contents.
pub open spec fn contents_ops(g: GridV) -> Seq<PaintOp> {
    seq![PaintOp::Mode(7, true), PaintOp::Mode(25, !g.modes.hide_cursor)] + full_paint(g)
        + autowrap_off(g)
}

/// Whether a difference can be painted at all.
pub open spec fn diffable(g: GridV, prev: GridV) -> bool {
    g.rows == prev.rows && g.cols == prev.cols && g.alt == prev.alt
}

/// The steps that turn the visible contents of `prev` into those of `g`.
pub open spec fn contents_diff_ops(g: GridV, prev: GridV) -> Seq<PaintOp> {
    seq![PaintOp::Mode(7, true)] + (if g.modes.hide_cursor != prev.modes.hide_cursor {
        seq![PaintOp::Mode(25, !g.modes.hide_cursor)]
    } else {
        seq![]
    }) + (if diffable(g, prev) {
        repaint(g, prev)
    } else {
        full_paint(g)
    }) + autowrap_off(g)
}

// ── Modes ───────────────────────────────────────────────────────────────────

/// The step that turns one of several exclusive modes into another.
#[verifier::opaque]
pub open spec fn exclusive_mode_ops(mode: u16, prev: u16) -> Seq<PaintOp> {
    if mode == prev {
        seq![]
    } else if mode == 0 {
        seq![PaintOp::Mode(prev, false)]
    } else {
        seq![PaintOp::Mode(mode, true)]
    }
}

/// The steps that set the input modes.
#[verifier::opaque]
pub open spec fn input_mode_ops(g: GridV) -> Seq<PaintOp> {
    seq![
        PaintOp::Mode(7, g.modes.autowrap),
        PaintOp::Keypad(g.modes.keypad),
        PaintOp::Mode(1, g.modes.app_cursor),
        PaintOp::Mode(2004, g.modes.paste),
    ] + exclusive_mode_ops(mouse_mode_of(g.modes.mouse_mode), 0) + exclusive_mode_ops(
        mouse_encoding_of(g.modes.mouse_encoding),
        0,
    ) + (if g.alt {
        seq![PaintOp::Mode(1049, true)]
    } else {
        seq![]
    }) + seq![PaintOp::Mode(25, !g.modes.hide_cursor), PaintOp::Style(g.modes.cursor_style)]
}

/// The step that switches a mode, if it differs.
#[verifier::opaque]
pub open spec fn mode_diff_ops(mode: u16, now: bool, prev: bool) -> Seq<PaintOp> {
    if now != prev {
        seq![PaintOp::Mode(mode, now)]
    } else {
        seq![]
    }
}

/// The step that switches the keypad, if it differs.
#[verifier::opaque]
pub open spec fn keypad_diff_ops(g: GridV, prev: GridV) -> Seq<PaintOp> {
    if g.modes.keypad != prev.modes.keypad {
        seq![PaintOp::Keypad(g.modes.keypad)]
    } else {
        seq![]
    }
}

/// The step that sets the cursor style, if it differs.
#[verifier::opaque]
pub open spec fn style_diff_ops(g: GridV, prev: GridV) -> Seq<PaintOp> {
    if g.modes.cursor_style != prev.modes.cursor_style {
        seq![PaintOp::Style(g.modes.cursor_style)]
    } else {
        seq![]
    }
}

/// The steps that change the input modes of `prev` to those of `g`.
#[verifier::opaque]
pub open spec fn input_mode_diff_ops(g: GridV, prev: GridV) -> Seq<PaintOp> {
    mode_diff_ops(7, g.modes.autowrap, prev.modes.autowrap) + keypad_diff_ops(g, prev)
        + mode_diff_ops(1, g.modes.app_cursor, prev.modes.app_cursor) + mode_diff_ops(
        2004,
        g.modes.paste,
        prev.modes.paste,
    ) + exclusive_mode_ops(
        mouse_mode_of(g.modes.mouse_mode),
        mouse_mode_of(prev.modes.mouse_mode),
    ) + exclusive_mode_ops(
        mouse_encoding_of(g.modes.mouse_encoding),
        mouse_encoding_of(prev.modes.mouse_encoding),
    ) + mode_diff_ops(1049, g.alt, prev.alt) + mode_diff_ops(
        25,
        !g.modes.hide_cursor,
        !prev.modes.hide_cursor,
    ) + style_diff_ops(g, prev)
}

/// The steps that reproduce the whole state.
pub open spec fn state_ops(g: GridV) -> Seq<PaintOp> {
    input_mode_ops(g) + contents_ops(g)
}

/// The steps that turn the state `prev` into the state `g`.
pub open spec fn state_diff_ops(g: GridV, prev: GridV) -> Seq<PaintOp> {
    input_mode_diff_ops(g, prev) + contents_diff_ops(g, prev)
}

// ── Equality ────────────────────────────────────────────────────────────────

/// The cell without its hyperlink, which no written sequence carries.
pub open spec fn unlinked(cell: CellV) -> CellV {
    CellV { hyperlink_id: 0, hyperlink: None, ..cell }
}

/// The cells of a row without their hyperlinks.
pub open spec fn unlinked_row(cells: Seq<CellV>) -> Seq<CellV> {
    Seq::new(cells.len(), |i: int| unlinked(cells[i]))
}

/// Whether two states show the same cells.
pub open spec fn same_cells(a: GridV, b: GridV) -> bool {
    &&& a.screen.len() == b.screen.len()
    &&& forall|i: int|
        0 <= i < a.screen.len() ==> unlinked_row((#[trigger] a.screen[i]).cells) == unlinked_row(
            b.screen[i].cells,
        )
}

/// Whether two states look the same: dimensions, cells, cursor, pen, DECAWM
/// and cursor visibility.
pub open spec fn same_picture(a: GridV, b: GridV) -> bool {
    &&& a.rows == b.rows
    &&& a.cols == b.cols
    &&& same_cells(a, b)
    &&& a.row == b.row
    &&& a.col == b.col
    &&& a.pen == b.pen
    &&& a.modes.autowrap == b.modes.autowrap
    &&& a.modes.hide_cursor == b.modes.hide_cursor
}

/// Whether two states have the same input modes.
pub open spec fn same_input_modes(a: GridV, b: GridV) -> bool {
    &&& a.modes.autowrap == b.modes.autowrap
    &&& a.modes.keypad == b.modes.keypad
    &&& a.modes.app_cursor == b.modes.app_cursor
    &&& a.modes.paste == b.modes.paste
    &&& mouse_mode_of(a.modes.mouse_mode) == mouse_mode_of(b.modes.mouse_mode)
    &&& mouse_encoding_of(a.modes.mouse_encoding) == mouse_encoding_of(b.modes.mouse_encoding)
    &&& a.alt == b.alt
    &&& a.modes.hide_cursor == b.modes.hide_cursor
    &&& a.modes.cursor_style == b.modes.cursor_style
}

/// Whether two states are equal over the replay contract.
pub open spec fn same_state(a: GridV, b: GridV) -> bool {
    same_picture(a, b) && same_input_modes(a, b)
}

} // verus!
