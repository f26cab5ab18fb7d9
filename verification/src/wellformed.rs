//! Every event keeps the state well-formed.

use crate::cell::{bg_attrs, blank_cell, blank_with, Attrs, CellV, LinkV};
use crate::damage::{marking_covers, marking_rows_covers};
use crate::model::{
    blank_cells, cell_fits, cell_wf, cells_deleted, cells_inserted, cells_resized, cluster_is_wide,
    continuation_of, ends_with_zwj, erased, is_cluster, is_cluster_char, is_vt_control, put_cluster,
    repaired, row_wf, rows_down, rows_up, RowV, RowWrap,
};
use crate::state::{
    apply, apply_all, blank_screen, csi, csi_edit, csi_move, csi_other, erase_blank, esc, execute,
    first_of, fresh, grid_wf, join_col, joins, least, line, monus, newline, osc_event, print,
    resized, rows_blanked, screen_wf, scroll_up, set_dec_mode, set_dec_modes, with_cells, EventV,
    GridV,
};
use crate::width::{char_columns, cluster_columns};
use vstd::prelude::*;

verus! {

/// An event that the parser can produce: it prints no control characters.
pub open spec fn event_wf(event: EventV) -> bool {
    match event {
        EventV::Print(ch) => !is_vt_control(ch),
        _ => true,
    }
}

/// Events that the parser can produce.
pub open spec fn events_wf(events: Seq<EventV>) -> bool {
    forall|i: int| 0 <= i < events.len() ==> event_wf(#[trigger] events[i])
}

/// Writing a cluster into a well-formed row leaves it well-formed.
pub(crate) proof fn put_cluster_wf(
    cells: Seq<CellV>,
    col: int,
    text: Seq<char>,
    wide: bool,
    attrs: Attrs,
    link_id: u32,
    link: Option<LinkV>,
)
    requires
        row_wf(cells),
        0 <= col < cells.len(),
        is_cluster(text),
        wide == cluster_is_wide(text),
    ensures
        row_wf(put_cluster(cells, col, text, wide, attrs, link_id, link)),
        put_cluster(cells, col, text, wide, attrs, link_id, link).len() == cells.len(),
{
    let put = put_cluster(cells, col, text, wide, attrs, link_id, link);
    assert(cell_fits(cells, col));
    assert forall|i: int| 0 <= i < put.len() implies #[trigger] cell_fits(put, i) by {
        assert(cell_fits(cells, i));
        if i > 0 {
            assert(cell_fits(cells, i - 1));
        }
    }
}

/// A blank that carries a background only is well-formed.
pub open spec fn is_erase_blank(blank: CellV) -> bool {
    blank == blank_with(bg_attrs(blank.attrs.background))
}

/// Erasing in a well-formed row leaves it well-formed.
pub(crate) proof fn erased_wf(cells: Seq<CellV>, start: int, end: int, blank: CellV)
    requires
        row_wf(cells),
        0 <= start,
        end <= cells.len(),
        is_erase_blank(blank),
    ensures
        row_wf(erased(cells, start, end, blank)),
{
    let done = erased(cells, start, end, blank);
    assert(start < end ==> cell_fits(cells, start));
    assert forall|i: int| 0 <= i < done.len() implies #[trigger] cell_fits(done, i) by {
        assert(cell_fits(cells, i));
        if i > 0 {
            assert(cell_fits(cells, i - 1));
        }
    }
}

/// A row of blanks is well-formed.
pub(crate) proof fn blank_cells_wf(cols: int, blank: CellV)
    requires
        is_erase_blank(blank),
        cols >= 0,
    ensures
        row_wf(blank_cells(cols, blank)),
{
}

/// Whether the cell at `i` is well-formed, and no continuation of a wide lead
/// before it that it does not belong to.
pub open spec fn cell_repairable(cells: Seq<CellV>, i: int) -> bool {
    &&& cell_wf(cells[i])
    &&& i > 0 && cells[i].is_wide_continuation && cells[i - 1].is_wide ==> cells[i]
        == continuation_of(cells[i - 1])
}

/// A row in which the halves of wide cells may be missing, but none is mixed
/// up with another.
pub open spec fn row_repairable(cells: Seq<CellV>) -> bool {
    forall|i: int| 0 <= i < cells.len() ==> #[trigger] cell_repairable(cells, i)
}

/// Repairing makes a row well-formed.
pub(crate) proof fn repaired_wf(cells: Seq<CellV>)
    requires
        row_repairable(cells),
    ensures
        row_wf(repaired(cells)),
{
    let done = repaired(cells);
    assert forall|i: int| 0 <= i < done.len() implies #[trigger] cell_fits(done, i) by {
        assert(cell_repairable(cells, i));
        if i > 0 {
            assert(cell_repairable(cells, i - 1));
        }
    }
}

/// Inserting blanks leaves a row that can be repaired.
pub(crate) proof fn cells_inserted_repairable(cells: Seq<CellV>, col: int, n: int)
    requires
        row_wf(cells),
        0 <= col <= cells.len(),
        n >= 1,
    ensures
        row_repairable(cells_inserted(cells, col, n)),
{
    let done = cells_inserted(cells, col, n);
    assert forall|i: int| 0 <= i < done.len() implies #[trigger] cell_repairable(done, i) by {
        if i < col {
            assert(cell_fits(cells, i));
        } else if i >= col + n {
            assert(cell_fits(cells, i - n));
        }
    }
}

/// Deleting cells leaves a row that can be repaired, once the wide cells at
/// the ends of the deleted run are gone.
pub(crate) proof fn cells_deleted_repairable(cells: Seq<CellV>, col: int, n: int)
    requires
        row_wf(cells),
        0 <= col <= cells.len(),
        n >= 1,
    ensures
        row_repairable(
            cells_deleted(
                erased(cells, col, least(col + n, cells.len() as int), blank_cell()),
                col,
                n,
            ),
        ),
{
    let cut = erased(cells, col, least(col + n, cells.len() as int), blank_cell());
    erased_wf(cells, col, least(col + n, cells.len() as int), blank_cell());
    let done = cells_deleted(cut, col, n);
    assert forall|i: int| 0 <= i < done.len() implies #[trigger] cell_repairable(done, i) by {
        if i < col {
            assert(cell_fits(cut, i));
        } else if i + n < cut.len() {
            assert(cell_fits(cut, i + n));
        }
    }
}

/// Fitting a well-formed row to another width leaves it well-formed.
pub(crate) proof fn cells_resized_wf(cells: Seq<CellV>, cols: int)
    requires
        row_wf(cells),
        cols >= 1,
    ensures
        row_wf(cells_resized(cells, cols)),
{
    let done = cells_resized(cells, cols);
    assert forall|i: int| 0 <= i < done.len() implies #[trigger] cell_fits(done, i) by {
        if i < cells.len() {
            assert(cell_fits(cells, i));
        }
    }
}

/// A cluster stays one when it takes in a character that takes no column, or
/// that follows a joiner.
pub(crate) proof fn cluster_extends(text: Seq<char>, ch: char)
    requires
        is_cluster(text),
        !is_vt_control(ch),
        char_columns(ch) == 0 || ends_with_zwj(text),
    ensures
        is_cluster(text.push(ch)),
        cluster_is_wide(text.push(ch)) == (cluster_is_wide(text) || cluster_columns(text.push(ch))
            == 2),
{
    assert(text.push(ch).drop_last() =~= text);
    let longer = text.push(ch);
    assert forall|i: int| 0 <= i < longer.len() implies #[trigger] is_cluster_char(longer, i) by {
        if i < text.len() {
            assert(is_cluster_char(text, i));
        }
    }
}

/// One character that takes a column is a cluster.
pub(crate) proof fn single_is_cluster(ch: char)
    requires
        !is_vt_control(ch),
        char_columns(ch) >= 1,
    ensures
        is_cluster(seq![ch]),
        cluster_is_wide(seq![ch]) == (char_columns(ch) == 2),
{
}

proof fn with_cells_wf(g: GridV, cells: Seq<CellV>)
    requires
        grid_wf(g),
        row_wf(cells),
        cells.len() == g.cols,
    ensures
        screen_wf(with_cells(g.screen, g.row, cells), g.rows, g.cols),
{
}

proof fn scroll_up_wf(g: GridV, n: int, wrap: RowWrap)
    requires
        grid_wf(g),
        1 <= n <= u16::MAX,
    ensures
        grid_wf(scroll_up(g, n, wrap)),
{
    marking_rows_covers(g.dirty, g.top, g.bottom);
    blank_cells_wf(g.cols, blank_cell());
    let done = scroll_up(g, n, wrap);
    assert forall|i: int| 0 <= i < g.rows implies (#[trigger] done.screen[i]).cells.len() == g.cols
        && row_wf(done.screen[i].cells) by {
        assert(g.screen[i].cells.len() == g.cols);
        if i + n <= g.bottom {
            assert(g.screen[i + n].cells.len() == g.cols);
        }
    }
}

/// A new line keeps the state well-formed.
pub(crate) proof fn newline_wf(g: GridV, wrap: RowWrap)
    requires
        grid_wf(g),
    ensures
        grid_wf(newline(g, wrap)),
{
    if g.row == g.bottom {
        scroll_up_wf(g, 1, wrap);
    }
}

proof fn rows_down_wf(screen: Seq<RowV>, top: int, bottom: int, n: int, rows: int, cols: int)
    requires
        screen_wf(screen, rows, cols),
        0 <= top <= bottom < rows,
        n >= 1,
        cols >= 1,
    ensures
        screen_wf(rows_down(screen, top, bottom, n, cols), rows, cols),
{
    blank_cells_wf(cols, blank_cell());
    let done = rows_down(screen, top, bottom, n, cols);
    assert forall|i: int| 0 <= i < rows implies (#[trigger] done[i]).cells.len() == cols && row_wf(
        done[i].cells,
    ) by {
        assert(screen[i].cells.len() == cols);
        if top <= i - n {
            assert(screen[i - n].cells.len() == cols);
        }
    }
}

proof fn rows_up_wf(
    screen: Seq<RowV>,
    top: int,
    bottom: int,
    n: int,
    rows: int,
    cols: int,
    wrap: RowWrap,
)
    requires
        screen_wf(screen, rows, cols),
        0 <= top <= bottom < rows,
        n >= 1,
        cols >= 1,
    ensures
        screen_wf(rows_up(screen, top, bottom, n, cols, wrap), rows, cols),
{
    blank_cells_wf(cols, blank_cell());
    let done = rows_up(screen, top, bottom, n, cols, wrap);
    assert forall|i: int| 0 <= i < rows implies (#[trigger] done[i]).cells.len() == cols && row_wf(
        done[i].cells,
    ) by {
        assert(screen[i].cells.len() == cols);
        if i + n <= bottom {
            assert(screen[i + n].cells.len() == cols);
        }
    }
}

/// Printing a character keeps the state well-formed.
pub(crate) proof fn print_wf(g: GridV, ch: char)
    requires
        grid_wf(g),
        !is_vt_control(ch),
    ensures
        grid_wf(print(g, ch)),
{
    let w = char_columns(ch);
    let g1 = GridV { mutated: true, joinable: true, ..g };
    if g.disarmed && g.modes.autowrap {
    } else if joins(g, ch) {
        let at = join_col(g);
        let old = line(g)[at];
        assert(row_wf(line(g)));
        assert(cell_fits(line(g), at));
        assert(at < g.cols);
        let text = old.contents.push(ch);
        cluster_extends(old.contents, ch);
        let wide = old.is_wide || cluster_columns(text) == 2;
        put_cluster_wf(line(g), at, text, wide, old.attrs, old.hyperlink_id, old.hyperlink);
        with_cells_wf(
            g,
            put_cluster(line(g), at, text, wide, old.attrs, old.hyperlink_id, old.hyperlink),
        );
        marking_covers(
            g.dirty,
            g.row as u16,
            at as u16,
            crate::state::sat16(crate::state::touched_to(line(g), at + 2)),
        );
    } else if w > 0 {
        let before = if g.col >= g.cols && g.modes.autowrap {
            newline_wf(GridV { col: 0, ..g1 }, RowWrap::Soft);
            newline(GridV { col: 0, ..g1 }, RowWrap::Soft)
        } else {
            GridV { col: least(g.col, g.cols - 1), disarmed: false, ..g1 }
        };
        assert(grid_wf(before));
        assert(before.col < before.cols);
        single_is_cluster(ch);
        assert(row_wf(line(before)));
        put_cluster_wf(
            line(before),
            before.col,
            seq![ch],
            w == 2,
            before.pen,
            before.link_id,
            before.link,
        );
        with_cells_wf(
            before,
            put_cluster(
                line(before),
                before.col,
                seq![ch],
                w == 2,
                before.pen,
                before.link_id,
                before.link,
            ),
        );
        marking_covers(
            before.dirty,
            before.row as u16,
            crate::state::touched_from(line(before), before.col) as u16,
            crate::state::sat16(crate::state::touched_to(line(before), before.col + w)),
        );
    }
}

proof fn rows_blanked_wf(
    screen: Seq<RowV>,
    from: int,
    to: int,
    rows: int,
    cols: int,
    blank: CellV,
)
    requires
        screen_wf(screen, rows, cols),
        is_erase_blank(blank),
        cols >= 1,
    ensures
        screen_wf(rows_blanked(screen, from, to, cols, blank), rows, cols),
{
    blank_cells_wf(cols, blank);
    let done = rows_blanked(screen, from, to, cols, blank);
    assert forall|i: int| 0 <= i < rows implies (#[trigger] done[i]).cells.len() == cols && row_wf(
        done[i].cells,
    ) by {
        assert(screen[i].cells.len() == cols);
    }
}

/// The row edits keep the state well-formed.
proof fn csi_edit_wf(g: GridV, p0: u16, action: char)
    requires
        grid_wf(g),
    ensures
        grid_wf(csi_edit(g, p0, action)),
        csi_edit(g, p0, action).rows == g.rows,
        csi_edit(g, p0, action).cols == g.cols,
{
    reveal(csi_edit);
    let n = crate::state::at_least_one(p0);
    let cells = line(g);
    let row = g.row as u16;
    let blank = erase_blank(g);
    assert(row_wf(cells) && cells.len() == g.cols);
    assert(is_erase_blank(blank));
    let here = crate::state::touched_from(cells, g.col) as u16;
    if action == '@' {
        cells_inserted_repairable(cells, g.col, n);
        repaired_wf(cells_inserted(cells, g.col, n));
        with_cells_wf(g, repaired(cells_inserted(cells, g.col, n)));
        marking_covers(g.dirty, row, here, g.cols as u16);
    } else if action == 'J' {
        let end = least(g.col, g.cols - 1) + 1;
        erased_wf(cells, g.col, g.cols, blank);
        erased_wf(cells, 0, end, blank);
        let after = with_cells(g.screen, g.row, erased(cells, g.col, g.cols, blank));
        let before = with_cells(g.screen, g.row, erased(cells, 0, end, blank));
        with_cells_wf(g, erased(cells, g.col, g.cols, blank));
        with_cells_wf(g, erased(cells, 0, end, blank));
        rows_blanked_wf(after, g.row + 1, g.rows, g.rows, g.cols, blank);
        rows_blanked_wf(before, 0, g.row, g.rows, g.cols, blank);
        rows_blanked_wf(g.screen, 0, g.rows, g.rows, g.cols, blank);
    } else if action == 'K' {
        let end = least(g.col, g.cols - 1) + 1;
        erased_wf(cells, g.col, g.cols, blank);
        erased_wf(cells, 0, end, blank);
        blank_cells_wf(g.cols, blank);
        with_cells_wf(g, erased(cells, g.col, g.cols, blank));
        with_cells_wf(g, erased(cells, 0, end, blank));
        with_cells_wf(g, blank_cells(g.cols, blank));
        marking_covers(g.dirty, row, here, g.cols as u16);
        marking_covers(g.dirty, row, 0, crate::state::touched_to(cells, end) as u16);
        marking_covers(g.dirty, row, 0, u16::MAX);
    } else if action == 'L' {
        if g.row <= g.bottom {
            rows_down_wf(g.screen, g.row, g.bottom, n, g.rows, g.cols);
        }
    } else if action == 'M' {
        if g.row <= g.bottom {
            rows_up_wf(g.screen, g.row, g.bottom, n, g.rows, g.cols, RowWrap::Hard);
        }
    } else if action == 'P' {
        let cut = erased(cells, g.col, least(g.col + n, g.cols), blank_cell());
        cells_deleted_repairable(cells, g.col, n);
        repaired_wf(cells_deleted(cut, g.col, n));
        with_cells_wf(g, repaired(cells_deleted(cut, g.col, n)));
        let from = crate::state::touched_from(cells, least(g.col, monus(g.cols, n)));
        marking_covers(g.dirty, row, from as u16, g.cols as u16);
    } else if action == 'S' {
        scroll_up_wf(g, n, RowWrap::Hard);
    } else if action == 'T' {
        rows_down_wf(g.screen, g.top, g.bottom, n, g.rows, g.cols);
    } else {
        let end = least(g.col + n, g.cols);
        erased_wf(cells, g.col, end, blank);
        with_cells_wf(g, erased(cells, g.col, end, blank));
        marking_covers(g.dirty, row, here, crate::state::touched_to(cells, end) as u16);
    }
}

proof fn set_dec_mode_wf(g: GridV, mode: u16, on: bool)
    requires
        grid_wf(g),
    ensures
        grid_wf(set_dec_mode(g, mode, on)),
        set_dec_mode(g, mode, on).rows == g.rows,
        set_dec_mode(g, mode, on).cols == g.cols,
{
    reveal(set_dec_mode);
}

/// Switching DEC private modes keeps the state well-formed.
pub(crate) proof fn set_dec_modes_wf(g: GridV, params: Seq<Seq<u16>>, on: bool)
    requires
        grid_wf(g),
    ensures
        grid_wf(set_dec_modes(g, params, on)),
        set_dec_modes(g, params, on).rows == g.rows,
        set_dec_modes(g, params, on).cols == g.cols,
    decreases params.len(),
{
    if params.len() > 0 {
        set_dec_modes_wf(g, params.drop_last(), on);
        set_dec_mode_wf(set_dec_modes(g, params.drop_last(), on), first_of(params.last()), on);
    }
}

proof fn csi_move_wf(g: GridV, p0: u16, p1: u16, action: char)
    requires
        grid_wf(g),
    ensures
        grid_wf(csi_move(g, p0, p1, action)),
        csi_move(g, p0, p1, action).rows == g.rows,
        csi_move(g, p0, p1, action).cols == g.cols,
{
    reveal(csi_move);
}

proof fn csi_other_wf(g: GridV, params: Seq<Seq<u16>>, intermediates: Seq<u8>, action: char)
    requires
        grid_wf(g),
    ensures
        grid_wf(csi_other(g, params, intermediates, action)),
        csi_other(g, params, intermediates, action).rows == g.rows,
        csi_other(g, params, intermediates, action).cols == g.cols,
{
    reveal(csi_other);
    set_dec_modes_wf(g, params, true);
    set_dec_modes_wf(g, params, false);
}

proof fn osc_event_wf(g: GridV, params: Seq<Seq<u8>>, bell: bool)
    requires
        grid_wf(g),
    ensures
        grid_wf(osc_event(g, params, bell)),
        osc_event(g, params, bell).rows == g.rows,
        osc_event(g, params, bell).cols == g.cols,
{
    reveal(osc_event);
}

/// A screen of default cells is well-formed.
pub(crate) proof fn blank_screen_wf(rows: int, cols: int)
    requires
        rows >= 0,
        cols >= 0,
    ensures
        screen_wf(blank_screen(rows, cols), rows, cols),
{
    blank_cells_wf(cols, blank_cell());
}

/// A fresh state is well-formed.
pub proof fn fresh_wf(rows: int, cols: int, limit: int)
    requires
        1 <= rows <= u16::MAX,
        1 <= cols <= u16::MAX,
        0 <= limit <= usize::MAX,
    ensures
        grid_wf(fresh(rows, cols, limit)),
{
    blank_screen_wf(rows, cols);
}

/// Fitting the state to other dimensions keeps it well-formed.
pub proof fn resized_wf(g: GridV, rows: int, cols: int)
    requires
        grid_wf(g),
        1 <= rows <= u16::MAX,
        1 <= cols <= u16::MAX,
    ensures
        grid_wf(resized(g, rows, cols)),
{
    blank_cells_wf(cols, blank_cell());
    let r = resized(g, rows, cols);
    assert forall|i: int| 0 <= i < rows implies (#[trigger] r.screen[i]).cells.len() == cols
        && row_wf(r.screen[i].cells) by {
        if i < g.rows {
            assert(row_wf(g.screen[i].cells));
            cells_resized_wf(g.screen[i].cells, cols);
        }
    }
    assert forall|i: int| 0 <= i < rows implies (#[trigger] r.hidden[i]).cells.len() == cols
        && row_wf(r.hidden[i].cells) by {
        if i < g.rows {
            assert(row_wf(g.hidden[i].cells));
            cells_resized_wf(g.hidden[i].cells, cols);
        }
    }
}

/// A CSI sequence keeps the state well-formed.
pub(crate) proof fn csi_wf(g: GridV, params: Seq<Seq<u16>>, intermediates: Seq<u8>, action: char)
    requires
        grid_wf(g),
    ensures
        grid_wf(csi(g, params, intermediates, action)),
        csi(g, params, intermediates, action).rows == g.rows,
        csi(g, params, intermediates, action).cols == g.cols,
{
    let p0 = crate::state::param_at(params, 0);
    csi_move_wf(g, p0, crate::state::param_at(params, 1), action);
    csi_edit_wf(g, p0, action);
    csi_other_wf(g, params, intermediates, action);
}

proof fn esc_wf(g: GridV, byte: u8)
    requires
        grid_wf(g),
    ensures
        grid_wf(esc(g, byte)),
        esc(g, byte).rows == g.rows,
        esc(g, byte).cols == g.cols,
{
    let u = crate::state::unparked(g);
    rows_down_wf(u.screen, u.top, u.bottom, 1, u.rows, u.cols);
    blank_screen_wf(g.rows, g.cols);
}

proof fn execute_wf(g: GridV, byte: u8)
    requires
        grid_wf(g),
    ensures
        grid_wf(execute(g, byte)),
        execute(g, byte).rows == g.rows,
        execute(g, byte).cols == g.cols,
{
    newline_wf(crate::state::unparked(g), RowWrap::Hard);
}

/// Every event that the parser can produce keeps the state well-formed: the
/// cursor on the screen or parked behind it, rows and columns as many as the
/// dimensions say, every wide cell with its second column, the scrollback
/// within its limit, the kitty stack within its cap.
pub proof fn apply_keeps_wf(g: GridV, event: EventV)
    requires
        grid_wf(g),
        event_wf(event),
    ensures
        grid_wf(apply(g, event)),
        apply(g, event).rows == g.rows,
        apply(g, event).cols == g.cols,
{
    match event {
        EventV::Print(ch) => {
            print_wf(g, ch);
        },
        EventV::Execute(byte) => {
            execute_wf(g, byte);
        },
        EventV::Csi { params, intermediates, action } => {
            csi_wf(g, params, intermediates, action);
        },
        EventV::Esc { byte } => {
            esc_wf(g, byte);
        },
        EventV::Osc { params, bell } => {
            osc_event_wf(g, params, bell);
        },
    }
}

/// A run of events keeps the state well-formed.
pub proof fn apply_all_keeps_wf(g: GridV, events: Seq<EventV>)
    requires
        grid_wf(g),
        events_wf(events),
    ensures
        grid_wf(apply_all(g, events)),
        apply_all(g, events).rows == g.rows,
        apply_all(g, events).cols == g.cols,
    decreases events.len(),
{
    if events.len() > 0 {
        assert(events_wf(events.drop_last()));
        apply_all_keeps_wf(g, events.drop_last());
        apply_keeps_wf(apply_all(g, events.drop_last()), events.last());
    }
}

} // verus!
