//! What is kept of rows that leave the screen, of a cleared screen, and of a
//! screen that changes its size.

use crate::cell::Color;
use crate::editing::{asks, bare, bare_row};
use crate::model::{
    cells_of, newest, row_used, rows_evicted, rows_unused_above, rows_used, RowV, RowWrap,
};
use crate::settings::{screens_switch, switch};
use crate::state::{apply, csi_edit, grid_wf, resized, EventV, GridV};
use crate::wellformed::{apply_keeps_wf, resized_wf};
use vstd::prelude::*;

verus! {

/// Whether some cell of a row holds text.
pub open spec fn has_text(row: RowV) -> bool {
    exists|c: int| 0 <= c < row.cells.len() && #[trigger] row.cells[c].contents.len() > 0
}

/// Whether `history` ends with `old_rows` and then `rows`, as far as `limit`
/// rows go: nothing newer, nothing left out, nothing changed.
pub open spec fn appended(
    history: Seq<RowV>,
    old_rows: Seq<RowV>,
    rows: Seq<RowV>,
    limit: int,
) -> bool {
    let n = rows.len() as int;
    let m = old_rows.len() as int;
    &&& history.len() == if n + m < limit {
        n + m
    } else {
        limit
    }
    &&& forall|k: int|
        0 <= k < n && k < limit ==> #[trigger] history[history.len() - 1 - k] == rows[n - 1 - k]
    &&& forall|k: int|
        0 <= k < m && n + k < limit ==> #[trigger] history[history.len() - 1 - n - k] == old_rows[m
            - 1 - k]
}

/// The first and last row with text, found by what stands around them.
proof fn used_span(screen: Seq<RowV>, first: int, last: int)
    requires
        0 <= first <= last < screen.len(),
        has_text(screen[first]),
        has_text(screen[last]),
        forall|i: int| 0 <= i < first ==> !has_text(#[trigger] screen[i]),
        forall|i: int| last < i < screen.len() ==> !has_text(#[trigger] screen[i]),
    ensures
        rows_unused_above(screen) == first,
        rows_used(screen) == last + 1,
    decreases screen.len(),
{
    assert(row_used(screen[first].cells)) by {
        let c = choose|c: int|
            0 <= c < screen[first].cells.len() && #[trigger] screen[first].cells[c].contents.len()
                > 0;
        assert(screen[first].cells[c].contents.len() > 0);
    }
    assert(row_used(screen[last].cells)) by {
        let c = choose|c: int|
            0 <= c < screen[last].cells.len() && #[trigger] screen[last].cells[c].contents.len()
                > 0;
        assert(screen[last].cells[c].contents.len() > 0);
    }
    used_above(screen, first);
    used_below(screen, last);
}

proof fn unused_row(row: RowV)
    requires
        !has_text(row),
    ensures
        !row_used(row.cells),
{
    if row_used(row.cells) {
        let c = choose|c: int|
            0 <= c < row.cells.len() && (#[trigger] row.cells[c]).contents.len() > 0;
        assert(row.cells[c].contents.len() > 0);
    }
}

proof fn used_above(screen: Seq<RowV>, first: int)
    requires
        0 <= first < screen.len(),
        row_used(screen[first].cells),
        forall|i: int| 0 <= i < first ==> !has_text(#[trigger] screen[i]),
    ensures
        rows_unused_above(screen) == first,
    decreases first,
{
    if first > 0 {
        unused_row(screen[0]);
        let rest = screen.skip(1);
        assert forall|i: int| 0 <= i < first - 1 implies !has_text(#[trigger] rest[i]) by {
            assert(rest[i] == screen[i + 1]);
        }
        assert(rest[first - 1] == screen[first]);
        used_above(rest, first - 1);
    }
}

proof fn used_below(screen: Seq<RowV>, last: int)
    requires
        0 <= last < screen.len(),
        row_used(screen[last].cells),
        forall|i: int| last < i < screen.len() ==> !has_text(#[trigger] screen[i]),
    ensures
        rows_used(screen) == last + 1,
    decreases screen.len(),
{
    if last + 1 < screen.len() {
        unused_row(screen.last());
        let rest = screen.drop_last();
        assert(rest[last] == screen[last]);
        assert forall|i: int| last < i < rest.len() implies !has_text(#[trigger] rest[i]) by {
            assert(rest[i] == screen[i]);
        }
        used_below(rest, last);
    }
}

/// The rows in use are counted up to and with the last one that holds text.
pub proof fn rows_in_use(screen: Seq<RowV>, last: int)
    requires
        0 <= last < screen.len(),
        has_text(screen[last]),
        forall|i: int| last < i < screen.len() ==> !has_text(#[trigger] screen[i]),
    ensures
        rows_used(screen) == last + 1,
{
    let c = choose|c: int|
        0 <= c < screen[last].cells.len() && #[trigger] screen[last].cells[c].contents.len() > 0;
    assert(row_used(screen[last].cells)) by {
        assert(screen[last].cells[c].contents.len() > 0);
    }
    used_below(screen, last);
}

/// No row is in use where none holds text.
pub proof fn no_rows_in_use(screen: Seq<RowV>)
    requires
        forall|i: int| 0 <= i < screen.len() ==> !has_text(#[trigger] screen[i]),
    ensures
        rows_used(screen) == 0,
    decreases screen.len(),
{
    if screen.len() > 0 {
        unused_row(screen.last());
        let rest = screen.drop_last();
        assert forall|i: int| 0 <= i < rest.len() implies !has_text(#[trigger] rest[i]) by {
            assert(rest[i] == screen[i]);
        }
        no_rows_in_use(rest);
    }
}

/// Whether the event clears the whole screen and keeps the saved lines: ED 2, or
/// ED 0 with the cursor at home.
pub open spec fn clears(g: GridV, event: EventV) -> bool {
    asks(event, 'J', 2) || (asks(event, 'J', 0) && g.row == 0 && g.col == 0)
}

/// A cleared screen stays recoverable: every row from the first to the last one
/// with text is, with its cells and in order, among the newest rows of the
/// scrollback, as far as the limit allows, and what was there before stands
/// behind it. The cells are remembered too, so that the same block is not kept
/// twice.
pub proof fn clear_keeps_the_rows(g: GridV, event: EventV, first: int, last: int)
    requires
        grid_wf(g),
        clears(g, event),
        !g.alt,
        g.limit > 0,
        g.mutated,
        0 <= first <= last < g.rows,
        has_text(g.screen[first]),
        has_text(g.screen[last]),
        forall|i: int| 0 <= i < first ==> !has_text(#[trigger] g.screen[i]),
        forall|i: int| last < i < g.rows ==> !has_text(#[trigger] g.screen[i]),
        !(g.preserved matches Some(block) && block.len() == last + 1 - first && forall|k: int|
            0 <= k < block.len() ==> #[trigger] block[k] == g.screen[first + k].cells),
    ensures
        ({
            let h = apply(g, event);
            &&& appended(h.scrollback, g.scrollback, g.screen.subrange(first, last + 1), g.limit)
            &&& forall|i: int|
                first <= i <= last && last - i < g.limit ==> h.scrollback[h.scrollback.len() - 1 - (
                last - i)] == #[trigger] g.screen[i]
            &&& !h.mutated
            &&& h.preserved matches Some(block) && block.len() == last + 1 - first && forall|k: int|
                0 <= k < block.len() ==> #[trigger] block[k] == g.screen[first + k].cells
        }),
{
    reveal(csi_edit);
    used_span(g.screen, first, last);
    let block = g.screen.subrange(first, last + 1);
    let cells = cells_of(block);
    if g.preserved == Some(cells) {
        assert forall|k: int| 0 <= k < cells.len() implies #[trigger] cells[k] == g.screen[first
            + k].cells by {}
    }
    let h = apply(g, event);
    assert(h.preserved == Some(cells));
    let all = g.scrollback + block;
    assert(h.scrollback == newest(all, g.limit));
    newest_appends(g.scrollback, block, g.limit);
    assert forall|i: int| first <= i <= last && last - i < g.limit implies h.scrollback[
    h.scrollback.len() - 1 - (last - i)] == #[trigger] g.screen[i] by {
        assert(block[block.len() - 1 - (last - i)] == g.screen[i]);
    }
}

proof fn newest_appends(old_rows: Seq<RowV>, rows: Seq<RowV>, limit: int)
    requires
        limit >= 0,
        old_rows.len() <= limit,
    ensures
        appended(newest(old_rows + rows, limit), old_rows, rows, limit),
{
}

/// A clear keeps nothing where there is nothing to keep: on the alternate
/// screen, without a scrollback, with no row that holds text, with nothing
/// written since the last clear, or where the rows are those kept last.
pub proof fn clear_keeps_nothing_else(g: GridV, event: EventV)
    requires
        grid_wf(g),
        clears(g, event),
        ({
            ||| g.alt
            ||| g.limit == 0
            ||| !g.mutated
            ||| forall|i: int| 0 <= i < g.rows ==> !has_text(#[trigger] g.screen[i])
            ||| exists|first: int, last: int| #[trigger]
                kept_last(g, first, last)
        }),
    ensures
        apply(g, event).scrollback == g.scrollback,
        apply(g, event).preserved == g.preserved,
{
    reveal(csi_edit);
    if forall|i: int| 0 <= i < g.rows ==> !has_text(#[trigger] g.screen[i]) {
        no_rows_in_use(g.screen);
    }
    if exists|first: int, last: int| #[trigger] kept_last(g, first, last) {
        let (first, last) = choose|first: int, last: int| #[trigger] kept_last(g, first, last);
        used_span(g.screen, first, last);
        let block = cells_of(g.screen.subrange(first, last + 1));
        assert(g.preserved->0 =~= block);
    }
}

/// Whether the rows with text, from `first` to `last`, are those kept last.
pub open spec fn kept_last(g: GridV, first: int, last: int) -> bool {
    &&& 0 <= first <= last < g.rows
    &&& has_text(g.screen[first])
    &&& has_text(g.screen[last])
    &&& forall|i: int| 0 <= i < first ==> !has_text(#[trigger] g.screen[i])
    &&& forall|i: int| last < i < g.rows ==> !has_text(#[trigger] g.screen[i])
    &&& g.preserved is Some
    &&& g.preserved->0.len() == last + 1 - first
    &&& forall|k: int|
        0 <= k < g.preserved->0.len() ==> #[trigger] g.preserved->0[k] == g.screen[first + k].cells
}

/// A clear from the middle of the screen keeps nothing.
pub proof fn partial_clear_keeps_nothing(g: GridV, event: EventV)
    requires
        asks(event, 'J', 0),
        g.row != 0 || g.col != 0,
    ensures
        apply(g, event).scrollback == g.scrollback,
        apply(g, event).preserved == g.preserved,
        apply(g, event).mutated == g.mutated,
{
    reveal(csi_edit);
}

/// Lines that scroll off the top of the primary screen enter the scrollback in
/// order, the newest last, as far as the limit allows. Where the region does not
/// start at the top, or on the alternate screen, or without a scrollback,
/// nothing enters it.
pub proof fn scrolled_rows_are_kept(g: GridV, event: EventV, n: u16)
    requires
        grid_wf(g),
        asks(event, 'S', n),
    ensures
        ({
            let h = apply(g, event);
            let k: int = if n == 0 {
                1
            } else {
                n as int
            };
            &&& g.alt || g.top > 0 || g.limit == 0 || g.top == g.bottom ==> h.scrollback
                == g.scrollback
            &&& !g.alt && g.top == 0 && g.limit > 0 && g.top < g.bottom && k <= g.bottom + 1
                ==> appended(h.scrollback, g.scrollback, g.screen.subrange(0, k), g.limit)
            &&& !g.alt && g.top == 0 && g.limit > 0 && g.top < g.bottom && k > g.bottom + 1
                ==> exists|blanks: Seq<RowV>|
                {
                    &&& blanks.len() == k - g.bottom - 1
                    &&& forall|i: int| 0 <= i < blanks.len() ==> bare_row(blanks[i], g.cols)
                    &&& #[trigger] appended(
                        h.scrollback,
                        g.scrollback,
                        g.screen.subrange(0, g.bottom + 1) + blanks,
                        g.limit,
                    )
                }
        }),
{
    reveal(csi_edit);
    let h = apply(g, event);
    let k: int = if n == 0 {
        1
    } else {
        n as int
    };
    if !g.alt && g.top == 0 && g.limit > 0 && g.top < g.bottom {
        let out = rows_evicted(g.screen, g.bottom, k, g.cols, RowWrap::Hard);
        newest_appends(g.scrollback, out, g.limit);
        if k <= g.bottom + 1 {
            assert(out =~= g.screen.subrange(0, k));
        } else {
            let blanks = out.skip(g.bottom + 1);
            assert(out =~= g.screen.subrange(0, g.bottom + 1) + blanks);
            assert forall|i: int| 0 <= i < blanks.len() implies bare_row(blanks[i], g.cols) by {}
            assert(appended(
                h.scrollback,
                g.scrollback,
                g.screen.subrange(0, g.bottom + 1) + blanks,
                g.limit,
            ));
        }
    }
}

// ── Resizing ────────────────────────────────────────────────────────────────

/// Whether `new` is `old` cut or padded to the new size: every cell that fits is
/// there, with how its row wraps, and the rest is blank, but for the second
/// column of a wide cell that had stood in the last column.
pub open spec fn refitted(
    old: Seq<RowV>,
    new: Seq<RowV>,
    rows: int,
    cols: int,
    old_rows: int,
    old_cols: int,
) -> bool {
    &&& new.len() == rows
    &&& forall|r: int| 0 <= r < rows ==> (#[trigger] new[r]).cells.len() == cols
    &&& forall|r: int| 0 <= r < rows && r < old_rows ==> (#[trigger] new[r]).wrap == old[r].wrap
    &&& forall|r: int, c: int|
        0 <= r < rows && r < old_rows && 0 <= c < cols && c < old_cols
            ==> #[trigger] new[r].cells[c] == old[r].cells[c]
    &&& forall|r: int, c: int|
        0 <= r < rows && r < old_rows && old_cols <= c < cols && !(c == old_cols
            && old[r].cells[old_cols - 1].is_wide) ==> #[trigger] new[r].cells[c] == bare(
            Color::Default,
        )
    &&& forall|r: int|
        0 <= r < rows && r < old_rows && old_cols < cols && old[r].cells[old_cols - 1].is_wide
            ==> (#[trigger] new[r]).cells[old_cols].is_wide_continuation
    &&& forall|r: int| old_rows <= r < rows ==> bare_row(#[trigger] new[r], cols)
}

/// Resizing keeps the content of both screens, the one that is shown and the
/// other, and all that was scrolled away. The cursor is brought into the screen,
/// the region becomes the whole screen, everything is damaged, and nothing else
/// changes.
pub proof fn resize_keeps_both_screens(g: GridV, rows: int, cols: int)
    requires
        grid_wf(g),
        1 <= rows <= u16::MAX,
        1 <= cols <= u16::MAX,
    ensures
        ({
            let h = resized(g, rows, cols);
            &&& refitted(g.screen, h.screen, rows, cols, g.rows, g.cols)
            &&& refitted(g.hidden, h.hidden, rows, cols, g.rows, g.cols)
            &&& h.row == if g.row < rows {
                g.row
            } else {
                rows - 1
            }
            &&& h.col == if g.col < cols {
                g.col
            } else {
                cols - 1
            }
            &&& h.dirty.all
            &&& h == (GridV {
                rows,
                cols,
                screen: h.screen,
                hidden: h.hidden,
                row: h.row,
                col: h.col,
                disarmed: false,
                top: 0,
                bottom: rows - 1,
                dirty: h.dirty,
                joinable: false,
                ..g
            })
        }),
{
    assert forall|r: int| 0 <= r < g.rows implies (#[trigger] g.screen[r]).cells.len()
        == g.cols by {}
    assert forall|r: int| 0 <= r < g.rows implies (#[trigger] g.hidden[r]).cells.len()
        == g.cols by {}
}

/// Leaving the alternate screen after a resize shows the primary rows, cut or
/// padded to the new size.
pub proof fn primary_screen_outlives_resize(g: GridV, rows: int, cols: int)
    requires
        grid_wf(g),
        !g.alt,
        1 <= rows <= u16::MAX,
        1 <= cols <= u16::MAX,
    ensures
        ({
            let inside = apply(g, switch(seq![seq![1049u16]], true));
            let h = apply(resized(inside, rows, cols), switch(seq![seq![1049u16]], false));
            !h.alt && refitted(g.screen, h.screen, rows, cols, g.rows, g.cols)
        }),
{
    let enter = switch(seq![seq![1049u16]], true);
    let inside = apply(g, enter);
    screens_switch(g, 1049, true);
    apply_keeps_wf(g, enter);
    let after = resized(inside, rows, cols);
    resize_keeps_both_screens(inside, rows, cols);
    resized_wf(inside, rows, cols);
    screens_switch(after, 1049, false);
}

} // verus!
