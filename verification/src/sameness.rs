//! What it means that two states are the same, and that a state is sound.

use crate::cell::CellV;
use crate::model::{cell_fits, RowV};
use crate::paint::{
    input_mode_diff_ops, same_cells, same_input_modes, same_picture, same_state, unlinked_row,
};
use crate::state::{
    grid_wf, mouse_encoding_of, mouse_mode_of, GridV, MouseProtocolEncoding, MouseProtocolMode,
};
use vstd::prelude::*;

verus! {

/// Whether two cells look the same: text, width and attributes.
pub open spec fn looks_same(a: CellV, b: CellV) -> bool {
    &&& a.contents == b.contents
    &&& a.is_wide == b.is_wide
    &&& a.is_wide_continuation == b.is_wide_continuation
    &&& a.attrs == b.attrs
}

/// Whether two screens have the same shape and look the same in every cell.
pub open spec fn screens_look_same(a: Seq<RowV>, b: Seq<RowV>) -> bool {
    &&& a.len() == b.len()
    &&& forall|r: int|
        0 <= r < a.len() ==> (#[trigger] a[r]).cells.len() == b[r].cells.len()
    &&& forall|r: int, c: int|
        0 <= r < a.len() && 0 <= c < a[r].cells.len() ==> looks_same(
            #[trigger] a[r].cells[c],
            b[r].cells[c],
        )
}

/// Two states show the same cells exactly if every cell looks the same.
pub proof fn same_cells_are_seen(a: GridV, b: GridV)
    ensures
        same_cells(a, b) == screens_look_same(a.screen, b.screen),
{
    if same_cells(a, b) {
        assert forall|r: int| 0 <= r < a.screen.len() implies (#[trigger] a.screen[r]).cells.len()
            == b.screen[r].cells.len() by {
            assert(unlinked_row(a.screen[r].cells).len() == unlinked_row(b.screen[r].cells).len());
        }
        assert forall|r: int, c: int|
            0 <= r < a.screen.len() && 0 <= c < a.screen[r].cells.len() implies looks_same(
            #[trigger] a.screen[r].cells[c],
            b.screen[r].cells[c],
        ) by {
            assert(unlinked_row(a.screen[r].cells)[c] == unlinked_row(b.screen[r].cells)[c]);
        }
    }
    if screens_look_same(a.screen, b.screen) {
        assert forall|r: int| 0 <= r < a.screen.len() implies unlinked_row(
            (#[trigger] a.screen[r]).cells,
        ) == unlinked_row(b.screen[r].cells) by {
            let x = unlinked_row(a.screen[r].cells);
            let y = unlinked_row(b.screen[r].cells);
            assert forall|c: int| 0 <= c < x.len() implies x[c] == y[c] by {
                assert(looks_same(a.screen[r].cells[c], b.screen[r].cells[c]));
            }
            assert(x =~= y);
        }
    }
}

/// Two states are the same exactly if all that the replay contract names is: the
/// size, every visible cell, the cursor, the pen, the screen that is shown, and
/// the modes.
pub proof fn same_state_is_seen(a: GridV, b: GridV)
    ensures
        same_state(a, b) == ({
            &&& a.rows == b.rows
            &&& a.cols == b.cols
            &&& screens_look_same(a.screen, b.screen)
            &&& a.row == b.row
            &&& a.col == b.col
            &&& a.pen == b.pen
            &&& a.alt == b.alt
            &&& a.modes.autowrap == b.modes.autowrap
            &&& a.modes.keypad == b.modes.keypad
            &&& a.modes.app_cursor == b.modes.app_cursor
            &&& a.modes.paste == b.modes.paste
            &&& a.modes.hide_cursor == b.modes.hide_cursor
            &&& a.modes.cursor_style == b.modes.cursor_style
            &&& mouse_mode_of(a.modes.mouse_mode) == mouse_mode_of(b.modes.mouse_mode)
            &&& mouse_encoding_of(a.modes.mouse_encoding) == mouse_encoding_of(
                b.modes.mouse_encoding,
            )
        }),
        same_picture(a, b) == ({
            &&& a.rows == b.rows
            &&& a.cols == b.cols
            &&& screens_look_same(a.screen, b.screen)
            &&& a.row == b.row
            &&& a.col == b.col
            &&& a.pen == b.pen
            &&& a.modes.autowrap == b.modes.autowrap
            &&& a.modes.hide_cursor == b.modes.hide_cursor
        }),
        same_state(a, b) == (same_picture(a, b) && same_input_modes(a, b)),
{
    same_cells_are_seen(a, b);
}

/// The modes by which mouse reports and their encodings are known.
pub proof fn mouse_modes_have_numbers()
    ensures
        mouse_mode_of(MouseProtocolMode::Off) == 0,
        mouse_mode_of(MouseProtocolMode::Press) == 1000,
        mouse_mode_of(MouseProtocolMode::PressRelease) == 1002,
        mouse_mode_of(MouseProtocolMode::ButtonMotion) == 1002,
        mouse_mode_of(MouseProtocolMode::AnyEvent) == 1003,
        mouse_mode_of(MouseProtocolMode::AnyMotion) == 1003,
        mouse_encoding_of(MouseProtocolEncoding::Default) == 0,
        mouse_encoding_of(MouseProtocolEncoding::Utf8) == 1005,
        mouse_encoding_of(MouseProtocolEncoding::Sgr) == 1006,
        mouse_encoding_of(MouseProtocolEncoding::Urxvt) == 1015,
{
}

/// Between states with the same modes there is no mode to write.
pub proof fn same_modes_write_nothing(a: GridV, b: GridV)
    requires
        same_input_modes(a, b),
    ensures
        input_mode_diff_ops(a, b).len() == 0,
{
    reveal(input_mode_diff_ops);
    reveal(crate::paint::mode_diff_ops);
    reveal(crate::paint::exclusive_mode_ops);
    reveal(crate::paint::keypad_diff_ops);
    reveal(crate::paint::style_diff_ops);
}

/// A sound state has screens of its size, a wide cell before every second column
/// and a second column behind every wide cell but in the last column, text only
/// where there is a cell for it, its cursor on the screen or parked behind it, a
/// scroll region on the screen, and no more history than it may keep.
pub proof fn sound_states(g: GridV, r: int, c: int)
    requires
        grid_wf(g),
        0 <= r < g.rows,
        0 <= c < g.cols,
    ensures
        g.screen.len() == g.rows && g.hidden.len() == g.rows,
        g.screen[r].cells.len() == g.cols && g.hidden[r].cells.len() == g.cols,
        0 <= g.row < g.rows && 0 <= g.col <= g.cols,
        0 <= g.top <= g.bottom < g.rows,
        g.scrollback.len() <= g.limit,
        0 <= g.offset <= g.scrollback.len(),
        g.kitty.len() <= 64,
        g.screen[r].cells[c].is_wide_continuation == (c > 0 && g.screen[r].cells[c - 1].is_wide),
        g.hidden[r].cells[c].is_wide_continuation == (c > 0 && g.hidden[r].cells[c - 1].is_wide),
        g.screen[r].cells[c].is_wide_continuation ==> g.screen[r].cells[c].contents.len() == 0
            && !g.screen[r].cells[c].is_wide && g.screen[r].cells[c].attrs == g.screen[r].cells[c
            - 1].attrs,
        g.screen[r].cells[c].is_wide ==> g.screen[r].cells[c].contents.len() > 0,
        g.screen[r].cells[c].is_wide && c + 1 < g.cols ==> g.screen[r].cells[c
            + 1].is_wide_continuation,
{
    assert(g.screen[r].cells.len() == g.cols);
    assert(g.hidden[r].cells.len() == g.cols);
    assert(cell_fits(g.screen[r].cells, c));
    assert(cell_fits(g.hidden[r].cells, c));
    if c + 1 < g.cols {
        assert(cell_fits(g.screen[r].cells, c + 1));
    }
}

} // verus!
