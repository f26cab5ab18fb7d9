//! The part of a state that painting reads and changes, and what each step of
//! painting does to it.

use crate::cell::{bg_attrs, blank_with, plain_attrs, Attrs, CellV};
use crate::model::{blank_cells, ends_with_zwj, erased, put_cluster, RowV, RowWrap};
use crate::ops::{paint_event, paint_events, paint_wf, PaintOp};
use crate::paint::{unlinked, unlinked_row};
use crate::state::{
    apply, apply_all, columns, csi_edit, csi_move, csi_other, erase_display, first_of, grid_wf,
    join_col, joins, least, line, newline, placed, print, set_dec_mode, set_dec_modes, sgr,
    with_cells, with_mode, EventV, GridV, Modes, SavedV,
};
use crate::wellformed::{apply_keeps_wf, event_wf};
use crate::width::{char_columns, cluster_columns};
use vstd::prelude::*;

verus! {

/// What painting reads and changes.
#[verifier::ext_equal]
pub struct CoreV {
    pub rows: int,
    pub cols: int,
    /// The visible cells, without hyperlinks.
    pub cells: Seq<Seq<CellV>>,
    pub row: int,
    pub col: int,
    pub disarmed: bool,
    pub pen: Attrs,
    pub saved: SavedV,
    pub modes: Modes,
    pub joinable: bool,
}

/// The visible cells of a state, without hyperlinks.
pub open spec fn unlinked_rows(screen: Seq<RowV>) -> Seq<Seq<CellV>> {
    Seq::new(screen.len(), |i: int| unlinked_row(screen[i].cells))
}

/// The part of a state that painting reads and changes.
pub open spec fn core_of(g: GridV) -> CoreV {
    CoreV {
        rows: g.rows,
        cols: g.cols,
        cells: unlinked_rows(g.screen),
        row: g.row,
        col: g.col,
        disarmed: g.disarmed,
        pen: g.pen,
        saved: g.saved,
        modes: g.modes,
        joinable: g.joinable,
    }
}

/// The cells of the row that the cursor is on.
pub open spec fn core_line(c: CoreV) -> Seq<CellV> {
    c.cells[c.row]
}

/// The column of the cluster that the cursor stands behind, or `-1`.
pub open spec fn core_join_col(c: CoreV) -> int {
    let before = if c.col >= c.cols {
        c.cols - 1
    } else {
        c.col - 1
    };
    if before > 0 && core_line(c)[before].is_wide_continuation {
        before - 1
    } else {
        before
    }
}

/// Whether printing `ch` extends the cluster that the cursor stands behind.
pub open spec fn core_joins(c: CoreV, ch: char) -> bool {
    let at = core_join_col(c);
    at >= 0 && core_line(c)[at].contents.len() > 0 && (char_columns(ch) == 0 || (c.joinable
        && ends_with_zwj(core_line(c)[at].contents)))
}

/// The cluster at column `at` of the cursor's row extended by `ch`.
pub open spec fn core_joined(c: CoreV, at: int, ch: char) -> CoreV {
    let old = core_line(c)[at];
    let text = old.contents.push(ch);
    let wide = old.is_wide || cluster_columns(text) == 2;
    let behind = least(at + columns(old.is_wide), c.cols);
    CoreV {
        cells: c.cells.update(
            c.row,
            put_cluster(core_line(c), at, text, wide, old.attrs, 0, None),
        ),
        col: if c.col == behind {
            least(at + columns(wide), c.cols)
        } else {
            c.col
        },
        joinable: true,
        ..c
    }
}

/// The character `ch` of `w` columns written at the cursor.
pub open spec fn core_placed(c: CoreV, ch: char, w: int) -> CoreV {
    CoreV {
        cells: c.cells.update(
            c.row,
            put_cluster(core_line(c), c.col, seq![ch], w == 2, c.pen, 0, None),
        ),
        col: least(c.col + w, c.cols),
        joinable: true,
        ..c
    }
}

/// A printed character. The screen is taken not to scroll.
pub open spec fn core_print(c: CoreV, ch: char) -> CoreV {
    let w = char_columns(ch);
    if core_joins(c, ch) {
        core_joined(c, core_join_col(c), ch)
    } else if w == 0 {
        CoreV { joinable: true, ..c }
    } else if c.col >= c.cols && c.modes.autowrap {
        core_placed(CoreV { row: c.row + 1, col: 0, ..c }, ch, w)
    } else if !c.modes.autowrap && least(c.col, c.cols - 1) + w > c.cols {
        CoreV { joinable: true, ..c }
    } else {
        core_placed(CoreV { col: least(c.col, c.cols - 1), ..c }, ch, w)
    }
}

/// The blank that an erase leaves.
pub open spec fn core_blank(c: CoreV) -> CellV {
    blank_with(bg_attrs(c.pen.background))
}

/// The columns from the cursor up to `end` erased.
pub open spec fn core_erased(c: CoreV, end: int) -> Seq<Seq<CellV>> {
    c.cells.update(c.row, erased(core_line(c), c.col, end, core_blank(c)))
}

/// The rows from the cursor on erased.
pub open spec fn core_cleared(c: CoreV) -> Seq<Seq<CellV>> {
    Seq::new(
        c.cells.len(),
        |i: int|
            if i > c.row {
                blank_cells(c.cols, core_blank(c))
            } else {
                core_erased(c, c.cols)[i]
            },
    )
}

/// What a step of painting does.
pub open spec fn core_step(c: CoreV, op: PaintOp) -> CoreV {
    let n = CoreV { joinable: false, ..c };
    match op {
        PaintOp::Print(ch) => core_print(c, ch),
        PaintOp::Back => CoreV {
            col: if c.col > 0 {
                c.col - 1
            } else {
                0
            },
            disarmed: false,
            ..n
        },
        PaintOp::Return => CoreV { col: 0, disarmed: false, ..n },
        PaintOp::Feed => CoreV {
            row: c.row + 1,
            col: least(c.col, c.cols - 1),
            disarmed: false,
            ..n
        },
        PaintOp::Sgr(params) => CoreV {
            pen: if params.len() == 0 {
                plain_attrs()
            } else {
                sgr(c.pen, params)
            },
            ..n
        },
        PaintOp::MoveTo(row, col) => CoreV {
            row: least(row, c.rows - 1),
            col: least(col, c.cols - 1),
            disarmed: false,
            ..n
        },
        PaintOp::Forward(k) => CoreV {
            col: least(least(c.col, c.cols - 1) + k, c.cols - 1),
            disarmed: false,
            ..n
        },
        PaintOp::EraseChars(k) => CoreV { cells: core_erased(c, least(c.col + k, c.cols)), ..n },
        PaintOp::EraseLine => CoreV { cells: core_erased(c, c.cols), ..n },
        PaintOp::EraseDisplay => CoreV { cells: core_cleared(c), ..n },
        PaintOp::Mode(mode, on) => CoreV { modes: with_mode(c.modes, mode, on), ..n },
        PaintOp::Style(style) => CoreV { modes: Modes { cursor_style: style, ..c.modes }, ..n },
        PaintOp::Save => CoreV {
            saved: SavedV { row: c.row, col: c.col, parked: c.col >= c.cols && !c.disarmed },
            ..n
        },
        PaintOp::Restore => CoreV {
            row: least(c.saved.row, c.rows - 1),
            col: if c.saved.parked {
                c.cols
            } else {
                least(c.saved.col, c.cols - 1)
            },
            disarmed: false,
            ..n
        },
        PaintOp::Keypad(on) => CoreV { modes: Modes { keypad: on, ..c.modes }, ..n },
    }
}

/// Whether a step stays within what the core describes: it neither scrolls nor
/// switches the screen, nor prints where a pending wrap was cancelled.
pub open spec fn core_allows(c: CoreV, op: PaintOp) -> bool {
    &&& paint_wf(op)
    &&& match op {
        PaintOp::Print(ch) => !c.disarmed && (core_joins(c, ch) || c.col < c.cols || c.row + 1
            < c.rows),
        PaintOp::Feed => c.row + 1 < c.rows,
        PaintOp::Mode(mode, on) => mode != 47 && mode != 1047 && mode != 1049,
        _ => true,
    }
}

/// What steps of painting do, one after the other; nothing where one of them
/// goes beyond the core.
#[verifier::opaque]
pub open spec fn core_run(c: Option<CoreV>, ops: Seq<PaintOp>) -> Option<CoreV>
    decreases ops.len(),
{
    if ops.len() == 0 {
        c
    } else {
        match core_run(c, ops.drop_last()) {
            None => None,
            Some(d) => if core_allows(d, ops.last()) {
                Some(core_step(d, ops.last()))
            } else {
                None
            },
        }
    }
}

/// Running steps is running the first ones and then the others.
pub(crate) proof fn core_run_concat(c: Option<CoreV>, a: Seq<PaintOp>, b: Seq<PaintOp>)
    ensures
        core_run(c, a + b) == core_run(core_run(c, a), b),
    decreases b.len(),
{
    reveal(core_run);
    if b.len() == 0 {
        assert(a + b =~= a);
    } else {
        core_run_concat(c, a, b.drop_last());
        assert((a + b).drop_last() =~= a + b.drop_last());
    }
}

/// Running no step.
pub(crate) proof fn core_run_none(c: CoreV)
    ensures
        core_run(Some(c), Seq::empty()) == Some(c),
{
    reveal(core_run);
}

/// Running one step.
pub(crate) proof fn core_run_one(c: CoreV, op: PaintOp)
    requires
        core_allows(c, op),
    ensures
        core_run(Some(c), seq![op]) == Some(core_step(c, op)),
{
    reveal_with_fuel(core_run, 2);
    assert(seq![op].drop_last() =~= Seq::empty());
    assert(core_run(Some(c), seq![op].drop_last()) == Some(c));
}

/// Running one more step.
pub(crate) proof fn core_run_push(c: Option<CoreV>, ops: Seq<PaintOp>, d: CoreV, op: PaintOp)
    requires
        core_run(c, ops) == Some(d),
        core_allows(d, op),
    ensures
        core_run(c, ops.push(op)) == Some(core_step(d, op)),
{
    reveal(core_run);
    assert(ops.push(op).drop_last() =~= ops);
}

// ── The core follows the state ──────────────────────────────────────────────

/// Writing a cluster without its hyperlink into a row without hyperlinks.
proof fn put_cluster_unlinked(
    cells: Seq<CellV>,
    col: int,
    text: Seq<char>,
    wide: bool,
    attrs: Attrs,
    link_id: u32,
    link: Option<crate::cell::LinkV>,
)
    requires
        0 <= col < cells.len(),
    ensures
        unlinked_row(put_cluster(cells, col, text, wide, attrs, link_id, link)) == put_cluster(
            unlinked_row(cells),
            col,
            text,
            wide,
            attrs,
            0,
            None,
        ),
{
    assert(unlinked_row(put_cluster(cells, col, text, wide, attrs, link_id, link)) =~= put_cluster(
        unlinked_row(cells),
        col,
        text,
        wide,
        attrs,
        0,
        None,
    ));
}

proof fn erased_unlinked(cells: Seq<CellV>, start: int, end: int, blank: CellV)
    requires
        0 <= start,
        end <= cells.len(),
        blank == unlinked(blank),
    ensures
        unlinked_row(erased(cells, start, end, blank)) == erased(
            unlinked_row(cells),
            start,
            end,
            blank,
        ),
{
    assert(unlinked_row(erased(cells, start, end, blank)) =~= erased(
        unlinked_row(cells),
        start,
        end,
        blank,
    ));
}

proof fn with_cells_unlinked(screen: Seq<RowV>, row: int, cells: Seq<CellV>)
    requires
        0 <= row < screen.len(),
    ensures
        unlinked_rows(with_cells(screen, row, cells)) == unlinked_rows(screen).update(
            row,
            unlinked_row(cells),
        ),
{
    assert(unlinked_rows(with_cells(screen, row, cells)) =~= unlinked_rows(screen).update(
        row,
        unlinked_row(cells),
    ));
}

/// Whether the scroll region is the whole screen.
pub open spec fn whole_region(g: GridV) -> bool {
    g.top == 0 && g.bottom == g.rows - 1
}

proof fn placed_follows(g: GridV, ch: char, w: int)
    requires
        grid_wf(g),
        g.col < g.cols,
        g.joinable,
    ensures
        core_of(placed(g, ch, w)) == core_placed(core_of(g), ch, w),
{
    put_cluster_unlinked(line(g), g.col, seq![ch], w == 2, g.pen, g.link_id, g.link);
    with_cells_unlinked(
        g.screen,
        g.row,
        put_cluster(line(g), g.col, seq![ch], w == 2, g.pen, g.link_id, g.link),
    );
    assert(core_of(placed(g, ch, w)) =~= core_placed(core_of(g), ch, w));
}

proof fn print_follows(g: GridV, ch: char)
    requires
        grid_wf(g),
        whole_region(g),
        !g.disarmed,
        core_joins(core_of(g), ch) || g.col < g.cols || g.row + 1 < g.rows,
    ensures
        core_of(print(g, ch)) == core_print(core_of(g), ch),
        whole_region(print(g, ch)),
        print(g, ch).alt == g.alt,
{
    let c = core_of(g);
    let w = char_columns(ch);
    let g1 = GridV { mutated: true, joinable: true, ..g };
    assert(line(g).len() == g.cols);
    assert(core_line(c) == unlinked_row(line(g)));
    assert(join_col(g) == core_join_col(c));
    assert(joins(g, ch) == core_joins(c, ch));
    if joins(g, ch) {
        let at = join_col(g);
        let old = line(g)[at];
        let text = old.contents.push(ch);
        let wide = old.is_wide || cluster_columns(text) == 2;
        put_cluster_unlinked(line(g), at, text, wide, old.attrs, old.hyperlink_id, old.hyperlink);
        with_cells_unlinked(
            g.screen,
            g.row,
            put_cluster(line(g), at, text, wide, old.attrs, old.hyperlink_id, old.hyperlink),
        );
        assert(core_of(print(g, ch)) =~= core_print(c, ch));
    } else if w == 0 {
        assert(core_of(print(g, ch)) =~= core_print(c, ch));
    } else if g.col >= g.cols && g.modes.autowrap {
        let g2 = GridV { col: 0, ..g1 };
        let g3 = newline(g2, RowWrap::Soft);
        assert(g3.row == g.row + 1);
        assert(unlinked_rows(g3.screen) =~= unlinked_rows(g.screen));
        assert(core_of(g3) =~= CoreV { row: c.row + 1, col: 0, joinable: true, ..c });
        assert(grid_wf(g3));
        placed_follows(g3, ch, w);
    } else if !g.modes.autowrap && least(g.col, g.cols - 1) + w > g.cols {
        assert(core_of(print(g, ch)) =~= core_print(c, ch));
    } else {
        let g2 = GridV { col: least(g.col, g.cols - 1), disarmed: false, ..g1 };
        assert(core_of(g2) =~= CoreV { col: least(c.col, c.cols - 1), joinable: true, ..c });
        placed_follows(g2, ch, w);
    }
}

proof fn erase_follows(g: GridV, end: int)
    requires
        grid_wf(g),
        end <= g.cols,
    ensures
        unlinked_rows(
            with_cells(
                g.screen,
                g.row,
                erased(line(g), g.col, end, blank_with(bg_attrs(g.pen.background))),
            ),
        ) == core_erased(core_of(g), end),
{
    let blank = blank_with(bg_attrs(g.pen.background));
    assert(line(g).len() == g.cols);
    erased_unlinked(line(g), g.col, end, blank);
    with_cells_unlinked(g.screen, g.row, erased(line(g), g.col, end, blank));
}

proof fn clear_follows(g: GridV)
    requires
        grid_wf(g),
    ensures
        core_of(erase_display(g, 0)).cells == core_cleared(core_of(g)),
{
    let blank = blank_with(bg_attrs(g.pen.background));
    let c = core_of(g);
    erase_follows(g, g.cols);
    let cut = with_cells(g.screen, g.row, erased(line(g), g.col, g.cols, blank));
    let done = erase_display(g, 0).screen;
    assert(unlinked_row(blank_cells(g.cols, blank)) =~= blank_cells(g.cols, blank));
    assert forall|i: int| 0 <= i < g.rows implies unlinked_rows(done)[i] == core_cleared(c)[i] by {
        if i <= g.row {
            assert(done[i] == cut[i]);
            assert(unlinked_rows(done)[i] == unlinked_rows(cut)[i]);
        } else {
            assert(done[i].cells == blank_cells(g.cols, blank));
        }
    }
    assert(unlinked_rows(done) =~= core_cleared(c));
}

proof fn mode_follows(g: GridV, mode: u16, on: bool)
    requires
        mode != 47 && mode != 1047 && mode != 1049,
    ensures
        core_of(set_dec_modes(g, seq![seq![mode]], on)) == (CoreV {
            modes: with_mode(g.modes, mode, on),
            ..core_of(g)
        }),
        set_dec_modes(g, seq![seq![mode]], on).top == g.top,
        set_dec_modes(g, seq![seq![mode]], on).bottom == g.bottom,
        set_dec_modes(g, seq![seq![mode]], on).alt == g.alt,
{
    reveal(set_dec_mode);
    reveal_with_fuel(set_dec_modes, 2);
    let params = seq![seq![mode]];
    assert(params.drop_last() =~= Seq::empty());
    assert(first_of(params.last()) == mode);
    assert(set_dec_modes(g, params, on) == set_dec_mode(g, mode, on));
    assert(core_of(set_dec_modes(g, params, on)) =~= (CoreV {
        modes: with_mode(g.modes, mode, on),
        ..core_of(g)
    }));
}

/// The core after a step that moves the cursor or erases follows the state.
proof fn csi_follows(g: GridV, op: PaintOp)
    requires
        grid_wf(g),
        whole_region(g),
        paint_wf(op),
        op is MoveTo || op is Forward || op is EraseChars || op is EraseLine || op is EraseDisplay,
    ensures
        core_of(apply(g, paint_event(op))) == core_step(core_of(g), op),
        whole_region(apply(g, paint_event(op))),
        apply(g, paint_event(op)).alt == g.alt,
{
    reveal(csi_move);
    reveal(csi_edit);
    let c = core_of(g);
    let done = apply(g, paint_event(op));
    match op {
        PaintOp::MoveTo(row, col) => {
            assert(done.screen == g.screen);
            assert(core_of(done) =~= core_step(c, op));
        },
        PaintOp::Forward(n) => {
            assert(done.screen == g.screen);
            assert(core_of(done) =~= core_step(c, op));
        },
        PaintOp::EraseChars(n) => {
            erase_follows(g, least(g.col + n, g.cols));
            assert(core_of(done) =~= core_step(c, op));
        },
        PaintOp::EraseLine => {
            erase_follows(g, g.cols);
            assert(core_of(done) =~= core_step(c, op));
        },
        PaintOp::EraseDisplay => {
            clear_follows(g);
            assert(core_of(done) =~= core_step(c, op));
        },
        _ => {},
    }
}

proof fn sgr_follows(g: GridV, params: Seq<Seq<u16>>)
    requires
        whole_region(g),
    ensures
        core_of(apply(g, paint_event(PaintOp::Sgr(params)))) == core_step(
            core_of(g),
            PaintOp::Sgr(params),
        ),
        whole_region(apply(g, paint_event(PaintOp::Sgr(params)))),
        apply(g, paint_event(PaintOp::Sgr(params))).alt == g.alt,
{
    reveal(csi_other);
    reveal_with_fuel(sgr, 2);
    let op = PaintOp::Sgr(params);
    let done = apply(g, paint_event(op));
    if params.len() == 0 {
        let zero = seq![seq![0u16]];
        assert(first_of(zero[0]) == 0);
        assert(zero.skip(1) =~= Seq::empty());
        assert(done.pen == plain_attrs());
    }
    assert(core_of(done) =~= core_step(core_of(g), op));
}

/// What it means that the core after a step follows the state.
pub open spec fn follows(g: GridV, op: PaintOp) -> bool {
    let done = apply(g, paint_event(op));
    &&& core_of(done) == core_step(core_of(g), op)
    &&& whole_region(done)
    &&& done.alt == g.alt
}

proof fn control_follows(g: GridV, op: PaintOp)
    requires
        grid_wf(g),
        whole_region(g),
        core_allows(core_of(g), op),
        op is Back || op is Return || op is Feed,
    ensures
        follows(g, op),
{
    let done = apply(g, paint_event(op));
    assert(unlinked_rows(done.screen) =~= unlinked_rows(g.screen));
    assert(core_of(done) =~= core_step(core_of(g), op));
}

proof fn escape_follows(g: GridV, op: PaintOp)
    requires
        grid_wf(g),
        whole_region(g),
        op is Save || op is Restore || op is Keypad,
    ensures
        follows(g, op),
{
    let done = apply(g, paint_event(op));
    assert(core_of(done) =~= core_step(core_of(g), op));
}

proof fn setting_follows(g: GridV, op: PaintOp)
    requires
        grid_wf(g),
        whole_region(g),
        core_allows(core_of(g), op),
        op is Mode || op is Style,
    ensures
        follows(g, op),
{
    reveal(csi_other);
    let done = apply(g, paint_event(op));
    match op {
        PaintOp::Mode(mode, on) => {
            mode_follows(g, mode, on);
            assert(core_of(done) =~= core_step(core_of(g), op));
        },
        _ => {
            assert(core_of(done) =~= core_step(core_of(g), op));
        },
    }
}

/// A step of painting does to the core of a state what its event does to the
/// state, which stays well-formed.
pub(crate) proof fn core_follows(g: GridV, op: PaintOp)
    requires
        grid_wf(g),
        whole_region(g),
        core_allows(core_of(g), op),
    ensures
        follows(g, op),
        grid_wf(apply(g, paint_event(op))),
{
    assert(event_wf(paint_event(op)));
    apply_keeps_wf(g, paint_event(op));
    match op {
        PaintOp::Print(ch) => {
            print_follows(g, ch);
        },
        PaintOp::Back | PaintOp::Return | PaintOp::Feed => {
            control_follows(g, op);
        },
        PaintOp::Save | PaintOp::Restore | PaintOp::Keypad(_) => {
            escape_follows(g, op);
        },
        PaintOp::Sgr(params) => {
            sgr_follows(g, params);
        },
        PaintOp::Mode(..) | PaintOp::Style(_) => {
            setting_follows(g, op);
        },
        _ => {
            csi_follows(g, op);
        },
    }
}

/// Events applied one after the other: the first ones and then the others.
pub(crate) proof fn apply_all_concat(g: GridV, a: Seq<EventV>, b: Seq<EventV>)
    ensures
        apply_all(g, a + b) == apply_all(apply_all(g, a), b),
    decreases b.len(),
{
    if b.len() == 0 {
        assert(a + b =~= a);
    } else {
        apply_all_concat(g, a, b.drop_last());
        assert((a + b).drop_last() =~= a + b.drop_last());
    }
}

/// Running steps on the core of a state gives the core of the state that their
/// events lead to.
pub(crate) proof fn core_run_follows(g: GridV, ops: Seq<PaintOp>)
    requires
        grid_wf(g),
        whole_region(g),
        core_run(Some(core_of(g)), ops) is Some,
    ensures
        core_run(Some(core_of(g)), ops) == Some(core_of(apply_all(g, paint_events(ops)))),
        grid_wf(apply_all(g, paint_events(ops))),
        whole_region(apply_all(g, paint_events(ops))),
        apply_all(g, paint_events(ops)).alt == g.alt,
    decreases ops.len(),
{
    reveal(core_run);
    if ops.len() > 0 {
        core_run_follows(g, ops.drop_last());
        let before = apply_all(g, paint_events(ops.drop_last()));
        assert(paint_events(ops).drop_last() =~= paint_events(ops.drop_last()));
        assert(paint_events(ops).last() == paint_event(ops.last()));
        core_follows(before, ops.last());
    }
}

} // verus!
