//! What the editing sequences do, row by row and cell by cell.

use crate::cell::{Attrs, CellV, Color, UnderlineStyle};
use crate::model::{cell_fits, RowV, RowWrap, ScrollOp};
use crate::state::{apply, csi_edit, grid_wf, EventV, GridV};
use vstd::prelude::*;

verus! {

/// Whether the event is a CSI sequence with that final character, whose first
/// parameter is `n` (zero where it is absent).
pub open spec fn asks(event: EventV, action: char, n: u16) -> bool {
    event matches EventV::Csi { params, action: a, .. } && a == action && n == if params.len() == 0
        || params[0].len() == 0 {
        0
    } else {
        params[0][0]
    }
}

/// A blank without text, links or attributes, on the given background.
pub open spec fn bare(background: Color) -> CellV {
    CellV {
        contents: Seq::empty(),
        is_wide: false,
        is_wide_continuation: false,
        hyperlink_id: 0,
        attrs: Attrs {
            foreground: Color::Default,
            background,
            underline_color: Color::Default,
            underline_style: UnderlineStyle::Off,
            bold: false,
            italic: false,
            inverse: false,
            dim: false,
            strikethrough: false,
            slow_blink: false,
            rapid_blink: false,
            conceal: false,
            overline: false,
        },
        hyperlink: None,
    }
}

/// Whether a row has `cols` default cells and starts a line.
pub open spec fn bare_row(row: RowV, cols: int) -> bool {
    &&& row.cells.len() == cols
    &&& row.wrap == RowWrap::Hard
    &&& forall|c: int| 0 <= c < cols ==> #[trigger] row.cells[c] == bare(Color::Default)
}

/// Whether nothing but the visible rows, the damage and the shift log differs.
pub open spec fn only_screen(g: GridV, h: GridV) -> bool {
    h == (GridV {
        screen: h.screen,
        dirty: h.dirty,
        scroll_ops: h.scroll_ops,
        joinable: false,
        ..g
    }) && h.screen.len() == g.screen.len()
}

// ── Lines ───────────────────────────────────────────────────────────────────

/// Deleting lines inside the scroll region: the rows above the cursor and below
/// the region stay; the others move up to the cursor, and blank lines follow.
/// Outside the region nothing happens.
pub proof fn delete_lines_moves_up(g: GridV, event: EventV, n: u16)
    requires
        grid_wf(g),
        asks(event, 'M', n),
    ensures
        ({
            let h = apply(g, event);
            let k: int = if n == 0 {
                1
            } else {
                n as int
            };
            &&& only_screen(g, h)
            &&& !(g.top <= g.row <= g.bottom) ==> h.screen == g.screen && h.scroll_ops
                == g.scroll_ops
            &&& g.top <= g.row <= g.bottom ==> {
                &&& h.scroll_ops == g.scroll_ops.push(
                    ScrollOp::Up { top: g.row as u16, bottom: g.bottom as u16, rows: k as u16 },
                )
                &&& forall|i: int|
                    0 <= i < g.rows && (i < g.row || i > g.bottom) ==> #[trigger] h.screen[i]
                        == g.screen[i]
                &&& forall|i: int|
                    g.row <= i && i + k <= g.bottom ==> #[trigger] h.screen[i] == g.screen[i + k]
                &&& forall|i: int|
                    g.row <= i <= g.bottom && i + k > g.bottom ==> bare_row(
                        #[trigger] h.screen[i],
                        g.cols,
                    )
            }
        }),
{
    reveal(csi_edit);
}

/// Inserting lines inside the scroll region: the rows above the cursor and below
/// the region stay; blank lines enter at the cursor, and the rows from there on
/// move down. Outside the region nothing happens.
pub proof fn insert_lines_moves_down(g: GridV, event: EventV, n: u16)
    requires
        grid_wf(g),
        asks(event, 'L', n),
    ensures
        ({
            let h = apply(g, event);
            let k: int = if n == 0 {
                1
            } else {
                n as int
            };
            &&& only_screen(g, h)
            &&& !(g.top <= g.row <= g.bottom) ==> h.screen == g.screen && h.scroll_ops
                == g.scroll_ops
            &&& g.top <= g.row <= g.bottom ==> {
                &&& h.scroll_ops == g.scroll_ops.push(
                    ScrollOp::Down { top: g.row as u16, bottom: g.bottom as u16, rows: k as u16 },
                )
                &&& forall|i: int|
                    0 <= i < g.rows && (i < g.row || i > g.bottom) ==> #[trigger] h.screen[i]
                        == g.screen[i]
                &&& forall|i: int|
                    g.row + k <= i <= g.bottom ==> #[trigger] h.screen[i] == g.screen[i - k]
                &&& forall|i: int|
                    g.row <= i <= g.bottom && i < g.row + k ==> bare_row(
                        #[trigger] h.screen[i],
                        g.cols,
                    )
            }
        }),
{
    reveal(csi_edit);
}

/// Lines inserted and deleted again at the same place are gone: all rows that
/// were not pushed out of the region are back.
pub proof fn delete_undoes_insert(g: GridV, insert: EventV, delete: EventV, n: u16)
    requires
        grid_wf(g),
        asks(insert, 'L', n),
        asks(delete, 'M', n),
        n >= 1,
    ensures
        ({
            let h = apply(apply(g, insert), delete);
            forall|i: int|
                0 <= i < g.rows && (i + n <= g.bottom || i > g.bottom) ==> #[trigger] h.screen[i]
                    == g.screen[i]
        }),
{
    reveal(csi_edit);
}

/// Scrolling down: the rows of the region move down, blank lines enter at its
/// top, and the rows outside stay.
pub proof fn scroll_down_moves_region(g: GridV, event: EventV, n: u16)
    requires
        grid_wf(g),
        asks(event, 'T', n),
    ensures
        ({
            let h = apply(g, event);
            let k: int = if n == 0 {
                1
            } else {
                n as int
            };
            &&& only_screen(g, h)
            &&& h.scroll_ops == g.scroll_ops.push(
                ScrollOp::Down { top: g.top as u16, bottom: g.bottom as u16, rows: k as u16 },
            )
            &&& forall|i: int|
                0 <= i < g.rows && (i < g.top || i > g.bottom) ==> #[trigger] h.screen[i]
                    == g.screen[i]
            &&& forall|i: int|
                g.top + k <= i <= g.bottom ==> #[trigger] h.screen[i] == g.screen[i - k]
            &&& forall|i: int|
                g.top <= i <= g.bottom && i < g.top + k ==> bare_row(#[trigger] h.screen[i], g.cols)
        }),
{
    reveal(csi_edit);
}

/// Scrolling up: the rows of the region move up, blank lines enter at its
/// bottom, and the rows outside stay. A region of one row does not scroll.
pub proof fn scroll_up_moves_region(g: GridV, event: EventV, n: u16)
    requires
        grid_wf(g),
        asks(event, 'S', n),
    ensures
        ({
            let h = apply(g, event);
            let k: int = if n == 0 {
                1
            } else {
                n as int
            };
            &&& h == (GridV {
                screen: h.screen,
                dirty: h.dirty,
                scroll_ops: h.scroll_ops,
                scrollback: h.scrollback,
                mutated: true,
                joinable: false,
                ..g
            })
            &&& h.screen.len() == g.rows
            &&& g.top == g.bottom ==> h.screen == g.screen && h.scroll_ops == g.scroll_ops
            &&& forall|i: int|
                0 <= i < g.rows && (i < g.top || i > g.bottom) ==> #[trigger] h.screen[i]
                    == g.screen[i]
            &&& g.top < g.bottom ==> {
                &&& h.scroll_ops == g.scroll_ops.push(
                    ScrollOp::Up { top: g.top as u16, bottom: g.bottom as u16, rows: k as u16 },
                )
                &&& forall|i: int|
                    g.top <= i && i + k <= g.bottom ==> #[trigger] h.screen[i] == g.screen[i + k]
                &&& forall|i: int|
                    g.top <= i <= g.bottom && i + k > g.bottom ==> bare_row(
                        #[trigger] h.screen[i],
                        g.cols,
                    )
            }
        }),
{
    reveal(csi_edit);
}

/// Reverse index moves the cursor up a row, or, at the top of the region, the
/// region down a line. It cancels a pending wrap.
pub proof fn reverse_index_moves_up(g: GridV)
    requires
        grid_wf(g),
    ensures
        ({
            let h = apply(g, EventV::Esc { byte: 0x4d });
            &&& h.col == if g.col == g.cols {
                g.cols - 1
            } else {
                g.col
            }
            &&& h == (GridV {
                row: h.row,
                col: h.col,
                disarmed: false,
                screen: h.screen,
                dirty: h.dirty,
                scroll_ops: h.scroll_ops,
                joinable: false,
                ..g
            })
            &&& g.row != g.top ==> h.screen == g.screen && h.dirty == g.dirty && h.scroll_ops
                == g.scroll_ops && h.row == if g.row == 0 {
                0
            } else {
                g.row - 1
            }
            &&& g.row == g.top ==> {
                &&& h.row == g.row
                &&& h.scroll_ops == g.scroll_ops.push(
                    ScrollOp::Down { top: g.top as u16, bottom: g.bottom as u16, rows: 1 },
                )
                &&& bare_row(h.screen[g.top], g.cols)
                &&& forall|i: int|
                    g.top < i <= g.bottom ==> #[trigger] h.screen[i] == g.screen[i - 1]
                &&& forall|i: int|
                    0 <= i < g.rows && (i < g.top || i > g.bottom) ==> #[trigger] h.screen[i]
                        == g.screen[i]
            }
        }),
{
}

// ── Erasing ─────────────────────────────────────────────────────────────────

/// Whether erasing `from..to` of row `old` gives row `new`: the columns between
/// are blank on the background, the half of a wide cell that was cut off at
/// either end goes with it, and every other cell stays.
pub open spec fn erases(old: RowV, new: RowV, from: int, to: int, background: Color) -> bool {
    &&& new.cells.len() == old.cells.len()
    &&& new.wrap == old.wrap
    &&& forall|c: int| from <= c < to ==> #[trigger] new.cells[c] == bare(background)
    &&& from < to && 0 < from && old.cells[from].is_wide_continuation ==> new.cells[from - 1]
        == bare(background)
    &&& from < to < old.cells.len() && old.cells[to].is_wide_continuation ==> new.cells[to] == bare(
        background,
    )
    &&& forall|c: int|
        0 <= c < old.cells.len() && (c < from || c >= to) && !(from < to && c == from - 1
            && old.cells[from].is_wide_continuation) && !(from < to && c == to
            && old.cells[to].is_wide_continuation) ==> #[trigger] new.cells[c] == old.cells[c]
}

/// Erase in line touches the cursor's row alone: from the cursor on, up to and
/// with the cursor, or all of it. Any other mode does nothing.
pub proof fn erase_line_blanks(g: GridV, event: EventV, n: u16)
    requires
        grid_wf(g),
        asks(event, 'K', n),
    ensures
        ({
            let h = apply(g, event);
            let here: int = if g.col == g.cols {
                g.cols - 1
            } else {
                g.col
            };
            &&& only_screen(g, h)
            &&& h.scroll_ops == g.scroll_ops
            &&& forall|i: int|
                0 <= i < g.rows && i != g.row ==> #[trigger] h.screen[i] == g.screen[i]
            &&& n == 0 ==> erases(
                g.screen[g.row],
                h.screen[g.row],
                g.col,
                g.cols,
                g.pen.background,
            )
            &&& n == 1 ==> erases(
                g.screen[g.row],
                h.screen[g.row],
                0,
                here + 1,
                g.pen.background,
            )
            &&& n == 2 ==> erases(g.screen[g.row], h.screen[g.row], 0, g.cols, g.pen.background)
            &&& n > 2 ==> h.screen == g.screen && h.dirty == g.dirty
        }),
{
    reveal(csi_edit);
    assert(g.screen[g.row].cells.len() == g.cols);
}

/// Erasing characters blanks as many columns from the cursor on, as far as the
/// row goes, and nothing else.
pub proof fn erase_chars_blanks(g: GridV, event: EventV, n: u16)
    requires
        grid_wf(g),
        asks(event, 'X', n),
    ensures
        ({
            let h = apply(g, event);
            let k: int = if n == 0 {
                1
            } else {
                n as int
            };
            let end: int = if g.col + k < g.cols {
                g.col + k
            } else {
                g.cols
            };
            &&& only_screen(g, h)
            &&& h.scroll_ops == g.scroll_ops
            &&& forall|i: int|
                0 <= i < g.rows && i != g.row ==> #[trigger] h.screen[i] == g.screen[i]
            &&& erases(g.screen[g.row], h.screen[g.row], g.col, end, g.pen.background)
        }),
{
    reveal(csi_edit);
    assert(g.screen[g.row].cells.len() == g.cols);
}

/// Erase in display: the rows below or above the cursor, or all of them, become
/// blank, and the cursor's row as far as erase in line would. Only the clear of
/// the saved lines touches what was scrolled away: it drops all of it, and says
/// so. Any other mode changes no cell.
pub proof fn erase_display_blanks(g: GridV, event: EventV, n: u16)
    requires
        grid_wf(g),
        asks(event, 'J', n),
    ensures
        ({
            let h = apply(g, event);
            let here: int = if g.col == g.cols {
                g.cols - 1
            } else {
                g.col
            };
            &&& h == (GridV {
                screen: h.screen,
                dirty: h.dirty,
                scrollback: h.scrollback,
                mutated: h.mutated,
                preserved: h.preserved,
                offset: h.offset,
                events: h.events,
                joinable: false,
                ..g
            })
            &&& h.dirty.all
            &&& h.screen.len() == g.rows
            &&& n == 0 ==> {
                &&& forall|i: int| 0 <= i < g.row ==> #[trigger] h.screen[i] == g.screen[i]
                &&& erases(g.screen[g.row], h.screen[g.row], g.col, g.cols, g.pen.background)
                &&& forall|i: int|
                    g.row < i < g.rows ==> erases(
                        g.screen[i],
                        #[trigger] h.screen[i],
                        0,
                        g.cols,
                        g.pen.background,
                    )
            }
            &&& n == 1 ==> {
                &&& forall|i: int| g.row < i < g.rows ==> #[trigger] h.screen[i] == g.screen[i]
                &&& erases(g.screen[g.row], h.screen[g.row], 0, here + 1, g.pen.background)
                &&& forall|i: int|
                    0 <= i < g.row ==> erases(
                        g.screen[i],
                        #[trigger] h.screen[i],
                        0,
                        g.cols,
                        g.pen.background,
                    )
            }
            &&& n == 2 || n == 3 ==> forall|i: int|
                0 <= i < g.rows ==> erases(
                    g.screen[i],
                    #[trigger] h.screen[i],
                    0,
                    g.cols,
                    g.pen.background,
                )
            &&& n == 3 ==> h.scrollback.len() == 0 && h.offset == 0 && h.events == g.events.push(
                crate::passthrough::PassV::ScrollbackClear,
            ) && h.mutated == g.mutated && h.preserved == g.preserved
            &&& n != 3 ==> h.offset == g.offset && h.events == g.events
            &&& n == 1 || n > 3 ==> h.scrollback == g.scrollback && h.mutated == g.mutated
                && h.preserved == g.preserved
            &&& n > 3 ==> h.screen == g.screen
        }),
{
    reveal(csi_edit);
    assert(g.screen[g.row].cells.len() == g.cols);
    assert forall|i: int| 0 <= i < g.rows implies (#[trigger] g.screen[i]).cells.len()
        == g.cols by {}
}

// ── Characters ──────────────────────────────────────────────────────────────

/// Inserting characters: blanks enter at the cursor, the cells from there on
/// move right, and those that run past the last column are lost. What a wide
/// cell that is cut in two leaves is blank. A parked cursor inserts nothing.
pub proof fn insert_chars_moves_right(g: GridV, event: EventV, n: u16)
    requires
        grid_wf(g),
        asks(event, '@', n),
    ensures
        ({
            let h = apply(g, event);
            let k: int = if n == 0 {
                1
            } else {
                n as int
            };
            let old_cells = g.screen[g.row].cells;
            let new_cells = h.screen[g.row].cells;
            &&& only_screen(g, h)
            &&& h.scroll_ops == g.scroll_ops
            &&& h.screen[g.row].wrap == g.screen[g.row].wrap
            &&& g.col == g.cols ==> h.screen == g.screen && h.dirty == g.dirty
            &&& forall|i: int|
                0 <= i < g.rows && i != g.row ==> #[trigger] h.screen[i] == g.screen[i]
            &&& new_cells.len() == g.cols
            &&& g.col < g.cols ==> {
                &&& forall|c: int|
                    0 <= c < g.col && !(c == g.col - 1 && old_cells[c].is_wide)
                        ==> #[trigger] new_cells[c] == old_cells[c]
                &&& forall|c: int|
                    g.col <= c < g.cols && c < g.col + k ==> #[trigger] new_cells[c] == bare(
                        Color::Default,
                    )
                &&& forall|c: int|
                    g.col + k <= c < g.cols && !(c == g.col + k
                        && old_cells[g.col].is_wide_continuation) && !(c == g.cols - 1
                        && old_cells[c - k].is_wide) ==> #[trigger] new_cells[c] == old_cells[c
                        - k]
                &&& 0 < g.col && old_cells[g.col - 1].is_wide ==> new_cells[g.col - 1] == bare(
                    Color::Default,
                )
            }
        }),
{
    reveal(csi_edit);
    let cells = g.screen[g.row].cells;
    assert(cells.len() == g.cols);
    assert forall|c: int| 0 <= c < g.cols implies #[trigger] cell_fits(cells, c) by {}
    let h = apply(g, event);
    let k: int = if n == 0 {
        1
    } else {
        n as int
    };
    let moved = crate::model::cells_inserted(cells, g.col, k);
    if g.col < g.cols {
        let done = h.screen[g.row].cells;
        assert(done =~= crate::model::repaired(moved));
        assert forall|c: int| 0 <= c < g.col && !(c == g.col - 1 && cells[c].is_wide) implies
            #[trigger] done[c] == cells[c] by {
            assert(cell_fits(cells, c));
            if c + 1 < g.cols {
                assert(cell_fits(cells, c + 1));
            }
        }
        assert forall|c: int|
            g.col + k <= c < g.cols && !(c == g.col + k && cells[g.col].is_wide_continuation) && !(c
                == g.cols - 1 && cells[c - k].is_wide) implies #[trigger] done[c] == cells[c - k] by {
            assert(cell_fits(cells, c - k));
            assert(cell_fits(cells, c - k + 1));
        }
        if 0 < g.col && cells[g.col - 1].is_wide {
            assert(cell_fits(cells, g.col));
            assert(moved[g.col] == bare(Color::Default));
            assert(crate::model::is_orphan(moved, g.col - 1));
        }
    }
}

/// Deleting characters: the cells behind the deleted ones move left to the
/// cursor, and the last columns of the row, as many as were deleted, become
/// blank. What a wide cell that is cut in two leaves is blank.
pub proof fn delete_chars_moves_left(g: GridV, event: EventV, n: u16)
    requires
        grid_wf(g),
        asks(event, 'P', n),
    ensures
        ({
            let h = apply(g, event);
            let k: int = if n == 0 {
                1
            } else {
                n as int
            };
            let old_cells = g.screen[g.row].cells;
            let new_cells = h.screen[g.row].cells;
            &&& only_screen(g, h)
            &&& h.scroll_ops == g.scroll_ops
            &&& h.screen[g.row].wrap == g.screen[g.row].wrap
            &&& forall|i: int|
                0 <= i < g.rows && i != g.row ==> #[trigger] h.screen[i] == g.screen[i]
            &&& new_cells.len() == g.cols
            &&& forall|c: int|
                0 <= c < g.cols && g.cols - k <= c ==> #[trigger] new_cells[c] == bare(
                    Color::Default,
                )
            &&& forall|c: int|
                0 <= c < g.col && c < g.cols - k && !(c == g.col - 1 && old_cells[c].is_wide) && !(c
                    == g.cols - k - 1 && old_cells[c].is_wide) ==> #[trigger] new_cells[c]
                    == old_cells[c]
            &&& forall|c: int|
                g.col <= c < g.cols - k && !(c == g.col && old_cells[c + k].is_wide_continuation)
                    && !(c == g.cols - k - 1 && old_cells[c + k].is_wide)
                    ==> #[trigger] new_cells[c] == old_cells[c + k]
        }),
{
    reveal(csi_edit);
    let cells = g.screen[g.row].cells;
    assert(cells.len() == g.cols);
    let h = apply(g, event);
    let k: int = if n == 0 {
        1
    } else {
        n as int
    };
    let end: int = if g.col + k < g.cols {
        g.col + k
    } else {
        g.cols
    };
    let cut = crate::model::erased(cells, g.col, end, crate::cell::blank_cell());
    let moved = crate::model::cells_deleted(cut, g.col, k);
    let done = h.screen[g.row].cells;
    assert(done =~= crate::model::repaired(moved));
    assert forall|c: int|
        0 <= c < g.col && c < g.cols - k && !(c == g.col - 1 && cells[c].is_wide) && !(c == g.cols
            - k - 1 && cells[c].is_wide) implies #[trigger] done[c] == cells[c] by {
        assert(cell_fits(cells, c));
        assert(cell_fits(cells, c + 1));
        if g.col < g.cols {
            assert(cell_fits(cells, g.col));
        }
    }
    assert forall|c: int|
        g.col <= c < g.cols - k && !(c == g.col && cells[c + k].is_wide_continuation) && !(c
            == g.cols - k - 1 && cells[c + k].is_wide) implies #[trigger] done[c] == cells[c
        + k] by {
        assert(cell_fits(cells, c + k));
        if c + k + 1 < g.cols {
            assert(cell_fits(cells, c + k + 1));
        }
        assert(end == g.col + k);
        assert(cut[c + k] == cells[c + k]);
        if c > g.col {
            assert(moved[c - 1] == cut[c - 1 + k]);
            assert(cells[c + k].is_wide_continuation ==> cut[c - 1 + k] == cells[c - 1 + k]) by {
                assert(cell_fits(cells, c - 1 + k));
            }
        }
        if c + 1 < g.cols - k {
            assert(moved[c + 1] == cut[c + 1 + k]);
            assert(cut[c + 1 + k] == cells[c + 1 + k]);
        }
        assert(moved[c] == cut[c + k]);
    }
}

} // verus!
