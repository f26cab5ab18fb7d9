//! Where each sequence takes the cursor.

use crate::editing::asks;
use crate::state::{apply, csi_move, csi_other, grid_wf, EventV, GridV, SavedV};
use vstd::prelude::*;

verus! {

/// Whether the cursor is at `row`, `col`, with no wrap pending or cancelled, and
/// nothing else changed.
pub open spec fn moved_to(g: GridV, h: GridV, row: int, col: int) -> bool {
    h == (GridV { row, col, disarmed: false, joinable: false, ..g })
}

/// The column that a move starts from: a parked cursor counts as standing on the
/// last column.
pub open spec fn start_col(g: GridV) -> int {
    if g.col == g.cols {
        g.cols - 1
    } else {
        g.col
    }
}

/// The second parameter of a CSI sequence, zero where it is absent.
pub open spec fn second(event: EventV) -> u16 {
    match event {
        EventV::Csi { params, .. } => if params.len() < 2 || params[1].len() == 0 {
            0
        } else {
            params[1][0]
        },
        _ => 0,
    }
}

/// The relative moves go as many rows or columns as they say (one where they say
/// nothing), and stop at the edge of the screen.
pub proof fn relative_moves(g: GridV, event: EventV, n: u16)
    requires
        grid_wf(g),
    ensures
        ({
            let h = apply(g, event);
            let k: int = if n == 0 {
                1
            } else {
                n as int
            };
            let up: int = if g.row > k {
                g.row - k
            } else {
                0
            };
            let down: int = if g.row + k < g.rows {
                g.row + k
            } else {
                g.rows - 1
            };
            let left: int = if start_col(g) > k {
                start_col(g) - k
            } else {
                0
            };
            let right: int = if start_col(g) + k < g.cols {
                start_col(g) + k
            } else {
                g.cols - 1
            };
            &&& asks(event, 'A', n) ==> moved_to(g, h, up, start_col(g))
            &&& asks(event, 'B', n) ==> moved_to(g, h, down, start_col(g))
            &&& asks(event, 'C', n) ==> moved_to(g, h, g.row, right)
            &&& asks(event, 'D', n) ==> moved_to(g, h, g.row, left)
            &&& asks(event, 'E', n) ==> moved_to(g, h, down, 0)
            &&& asks(event, 'F', n) ==> moved_to(g, h, up, 0)
        }),
{
    reveal(csi_move);
}

/// The absolute moves go to the one-based position that they name, brought into
/// the screen; what is absent or zero stands for the first row or column.
pub proof fn absolute_moves(g: GridV, event: EventV, n: u16)
    requires
        grid_wf(g),
    ensures
        ({
            let h = apply(g, event);
            let m = second(event);
            let row: int = if n == 0 {
                0
            } else if n <= g.rows {
                n - 1
            } else {
                g.rows - 1
            };
            let col: int = if m == 0 {
                0
            } else if m <= g.cols {
                m - 1
            } else {
                g.cols - 1
            };
            let alone: int = if n == 0 {
                0
            } else if n <= g.cols {
                n - 1
            } else {
                g.cols - 1
            };
            &&& asks(event, 'H', n) || asks(event, 'f', n) ==> moved_to(g, h, row, col)
            &&& asks(event, 'G', n) ==> moved_to(g, h, g.row, alone)
            &&& asks(event, 'd', n) ==> moved_to(g, h, row, start_col(g))
        }),
{
    reveal(csi_move);
}

/// Setting the margins makes the named rows the scroll region where the first is
/// above the last, and the whole screen otherwise; the cursor goes home.
pub proof fn margins_are_set(g: GridV, event: EventV, n: u16)
    requires
        grid_wf(g),
        asks(event, 'r', n),
    ensures
        ({
            let h = apply(g, event);
            let m = second(event);
            let first: int = if n == 0 {
                0
            } else {
                n - 1
            };
            let last: int = if m == 0 || m > g.rows {
                g.rows - 1
            } else {
                m - 1
            };
            &&& h.row == 0 && h.col == 0
            &&& h == (GridV {
                row: 0,
                col: 0,
                disarmed: false,
                top: h.top,
                bottom: h.bottom,
                joinable: false,
                ..g
            })
            &&& first < last ==> h.top == first && h.bottom == last
            &&& first >= last ==> h.top == 0 && h.bottom == g.rows - 1
        }),
{
    reveal(csi_move);
}

/// Carriage return, backspace and tab. A tab goes to the next column that is a
/// multiple of eight, as far as the last column.
pub proof fn controls_move(g: GridV)
    requires
        grid_wf(g),
    ensures
        moved_to(g, apply(g, EventV::Execute(0x0d)), g.row, 0),
        moved_to(
            g,
            apply(g, EventV::Execute(0x08)),
            g.row,
            if g.col == 0 {
                0
            } else {
                g.col - 1
            },
        ),
        ({
            let h = apply(g, EventV::Execute(0x09));
            &&& moved_to(g, h, g.row, h.col)
            &&& h.col == g.cols - 1 || (h.col % 8 == 0 && start_col(g) < h.col <= start_col(g) + 8)
            &&& h.col == g.cols - 1 ==> start_col(g) + 8 >= g.cols - 1 && forall|c: int|
                start_col(g) < c < g.cols - 1 ==> #[trigger] (c % 8) != 0
        }),
{
    let h = apply(g, EventV::Execute(0x09));
    let s = start_col(g);
    assert(s / 8 * 8 <= s < s / 8 * 8 + 8);
    assert forall|c: int| h.col == g.cols - 1 && s < c < g.cols - 1 implies #[trigger] (c % 8)
        != 0 by {
        if c % 8 == 0 {
            assert(c / 8 > s / 8) by (nonlinear_arith)
                requires
                    c % 8 == 0,
                    s < c,
                    0 <= s,
            ;
            assert((s / 8 + 1) * 8 <= c / 8 * 8);
        }
    }
}

/// A line feed moves the cursor down a row and starts a line there. At the
/// bottom of the region it scrolls the region up instead; on the last row of
/// the screen below the region it stays. It keeps the column, on the screen.
pub proof fn line_feed_moves_down(g: GridV, byte: u8)
    requires
        grid_wf(g),
        0x0a <= byte <= 0x0c,
    ensures
        ({
            let h = apply(g, EventV::Execute(byte));
            &&& h.col == start_col(g)
            &&& h.row == if g.row == g.bottom || g.row + 1 == g.rows {
                g.row
            } else {
                g.row + 1
            }
            &&& h == (GridV {
                row: h.row,
                col: h.col,
                disarmed: false,
                screen: h.screen,
                dirty: h.dirty,
                scroll_ops: h.scroll_ops,
                scrollback: h.scrollback,
                mutated: h.mutated,
                joinable: false,
                ..g
            })
            &&& g.row != g.bottom ==> {
                &&& h.scrollback == g.scrollback && h.scroll_ops == g.scroll_ops && h.dirty
                    == g.dirty && h.mutated == g.mutated
                &&& h.screen.len() == g.rows
                &&& h.screen[h.row].wrap == crate::model::RowWrap::Hard
                &&& forall|i: int|
                    0 <= i < g.rows ==> (#[trigger] h.screen[i]).cells == g.screen[i].cells
                &&& forall|i: int|
                    0 <= i < g.rows && i != h.row ==> #[trigger] h.screen[i] == g.screen[i]
            }
            &&& g.row == g.bottom ==> forall|scroll: EventV|
                asks(scroll, 'S', 1) ==> {
                    let s = #[trigger] apply(g, scroll);
                    &&& h.screen == s.screen
                    &&& h.scrollback == s.scrollback
                    &&& h.scroll_ops == s.scroll_ops
                    &&& h.dirty == s.dirty
                    &&& h.mutated
                }
        }),
{
    reveal(crate::state::csi_edit);
}

/// Saving stores the cursor and nothing else; restoring goes where it was saved,
/// brought into the screen, with the wrap pending again if one was pending.
pub proof fn cursor_is_saved_and_restored(g: GridV, event: EventV)
    requires
        grid_wf(g),
    ensures
        ({
            let h = apply(g, event);
            let saves = event == (EventV::Esc { byte: 0x37 }) || asks(event, 's', first(event));
            let restores = event == (EventV::Esc { byte: 0x38 }) || (asks(event, 'u', first(event))
                && event->intermediates.len() == 0);
            &&& saves ==> h == (GridV {
                saved: SavedV { row: g.row, col: g.col, parked: g.col == g.cols && !g.disarmed },
                joinable: false,
                ..g
            })
            &&& restores ==> moved_to(
                g,
                h,
                if g.saved.row < g.rows {
                    g.saved.row
                } else {
                    g.rows - 1
                },
                if g.saved.parked {
                    g.cols
                } else if g.saved.col < g.cols {
                    g.saved.col
                } else {
                    g.cols - 1
                },
            )
        }),
{
    reveal(csi_other);
}

/// The first parameter of a CSI sequence, zero where it is absent.
pub open spec fn first(event: EventV) -> u16 {
    match event {
        EventV::Csi { params, .. } => if params.len() == 0 || params[0].len() == 0 {
            0
        } else {
            params[0][0]
        },
        _ => 0,
    }
}

/// Whatever stands between, a cursor that was saved comes back when it is
/// restored on a screen of the same size, as long as nothing was saved again.
pub proof fn restore_after_save(g: GridV, later: GridV)
    requires
        grid_wf(g),
        grid_wf(later),
        !g.disarmed,
        later.rows == g.rows,
        later.cols == g.cols,
        later.saved == apply(g, EventV::Esc { byte: 0x37 }).saved,
    ensures
        apply(later, EventV::Esc { byte: 0x38 }).row == g.row,
        apply(later, EventV::Esc { byte: 0x38 }).col == g.col,
{
}

} // verus!
