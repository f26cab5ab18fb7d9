//! Scrolling, line edits, and the scrollback of a grid.

use crate::arena::fresh_row;
use crate::cell::Cell;
use crate::damage::marked_rows;
use crate::grid::{block_view, DamageGrid};
use crate::model::{
    blank_row_v, cells_of, newest, row_used, rows_down, rows_evicted, rows_unused_above, rows_up,
    rows_used, RowV, RowWrap, ScrollOp,
};
use crate::state::{
    delete_lines, grid_wf, insert_lines, newline, preserve, scroll_down, scroll_up, GridV,
};
use crate::write::{cells_view, copy_cells, rows_view, Row};
use vstd::prelude::*;

verus! {

proof fn newest_push(h: Seq<RowV>, a: Seq<RowV>, row: RowV, limit: int)
    requires
        limit > 0,
    ensures
        newest(newest(h + a, limit).push(row), limit) == newest(h + a.push(row), limit),
{
    assert(h + a.push(row) =~= (h + a).push(row));
    assert(newest(newest(h + a, limit).push(row), limit) =~= newest((h + a).push(row), limit));
}

proof fn rows_up_step(
    screen: Seq<RowV>,
    top: int,
    bottom: int,
    k: int,
    cols: int,
    wrap: RowWrap,
)
    requires
        0 <= top < bottom < screen.len(),
        0 <= k,
    ensures
        rows_up(screen, top, bottom, k, cols, wrap).remove(top).insert(
            bottom,
            blank_row_v(cols, wrap),
        ) == rows_up(screen, top, bottom, k + 1, cols, wrap),
        rows_up(screen, top, bottom, k, cols, wrap)[top] == if top + k <= bottom {
            screen[top + k]
        } else {
            blank_row_v(cols, wrap)
        },
{
    assert(rows_up(screen, top, bottom, k, cols, wrap).remove(top).insert(
        bottom,
        blank_row_v(cols, wrap),
    ) =~= rows_up(screen, top, bottom, k + 1, cols, wrap));
}

proof fn rows_up_none(screen: Seq<RowV>, top: int, bottom: int, cols: int, wrap: RowWrap)
    requires
        0 <= top <= bottom < screen.len(),
    ensures
        rows_up(screen, top, bottom, 0, cols, wrap) == screen,
        rows_down(screen, top, bottom, 0, cols) == screen,
{
    assert(rows_up(screen, top, bottom, 0, cols, wrap) =~= screen);
    assert(rows_down(screen, top, bottom, 0, cols) =~= screen);
}

proof fn rows_edge_step(
    screen: Seq<RowV>,
    top: int,
    bottom: int,
    k: int,
    cols: int,
)
    requires
        0 <= top <= bottom < screen.len(),
        0 <= k,
    ensures
        rows_up(screen, top, bottom, k, cols, RowWrap::Hard).remove(top).insert(
            bottom,
            blank_row_v(cols, RowWrap::Hard),
        ) == rows_up(screen, top, bottom, k + 1, cols, RowWrap::Hard),
        rows_down(screen, top, bottom, k, cols).remove(bottom).insert(
            top,
            blank_row_v(cols, RowWrap::Hard),
        ) == rows_down(screen, top, bottom, k + 1, cols),
{
    assert(rows_up(screen, top, bottom, k, cols, RowWrap::Hard).remove(top).insert(
        bottom,
        blank_row_v(cols, RowWrap::Hard),
    ) =~= rows_up(screen, top, bottom, k + 1, cols, RowWrap::Hard));
    assert(rows_down(screen, top, bottom, k, cols).remove(bottom).insert(
        top,
        blank_row_v(cols, RowWrap::Hard),
    ) =~= rows_down(screen, top, bottom, k + 1, cols));
}

/// Shifts the rows `top..=bottom` up by `n`, giving the rows that leave to the
/// arena.
fn shift_up(grid: &mut DamageGrid, top: u16, bottom: u16, n: u16)
    requires
        top <= bottom < old(grid).screen@.len(),
    ensures
        final(grid).same_stream(*old(grid)),
        final(grid).dirty == old(grid).dirty,
        final(grid)@ == (GridV {
            screen: rows_up(
                old(grid)@.screen,
                top as int,
                bottom as int,
                n as int,
                old(grid)@.cols,
                RowWrap::Hard,
            ),
            ..old(grid)@
        }),
{
    let ghost before = grid@;
    let ghost start = *grid;
    let mut k: u16 = 0;
    proof {
        rows_up_none(before.screen, top as int, bottom as int, before.cols, RowWrap::Hard);
    }
    while k < n
        invariant
            k <= n,
            top <= bottom < before.screen.len(),
            grid.screen@.len() == before.screen.len(),
            grid.same_stream(start),
            grid.dirty == start.dirty,
            grid@ == (GridV {
                screen: rows_up(
                    before.screen,
                    top as int,
                    bottom as int,
                    k as int,
                    before.cols,
                    RowWrap::Hard,
                ),
                ..before
            }),
        decreases n - k,
    {
        let ghost was = grid@.screen;
        let gone = grid.screen.remove(top as usize);
        assert(rows_view(grid.screen@) =~= was.remove(top as int));
        let blank = fresh_row(&grid.arena, grid.cols, RowWrap::Hard);
        grid.screen.insert(bottom as usize, blank);
        assert(rows_view(grid.screen@) =~= was.remove(top as int).insert(bottom as int, blank@));
        grid.arena.recycle(gone.cells);
        proof {
            rows_edge_step(before.screen, top as int, bottom as int, k as int, before.cols);
        }
        k = k + 1;
    }
}

/// Shifts the rows `top..=bottom` down by `n`, giving the rows that leave to
/// the arena.
fn shift_down(grid: &mut DamageGrid, top: u16, bottom: u16, n: u16)
    requires
        top <= bottom < old(grid).screen@.len(),
    ensures
        final(grid).same_stream(*old(grid)),
        final(grid).dirty == old(grid).dirty,
        final(grid)@ == (GridV {
            screen: rows_down(
                old(grid)@.screen,
                top as int,
                bottom as int,
                n as int,
                old(grid)@.cols,
            ),
            ..old(grid)@
        }),
{
    let ghost before = grid@;
    let ghost start = *grid;
    let mut k: u16 = 0;
    proof {
        rows_up_none(before.screen, top as int, bottom as int, before.cols, RowWrap::Hard);
    }
    while k < n
        invariant
            k <= n,
            top <= bottom < before.screen.len(),
            grid.screen@.len() == before.screen.len(),
            grid.same_stream(start),
            grid.dirty == start.dirty,
            grid@ == (GridV {
                screen: rows_down(
                    before.screen,
                    top as int,
                    bottom as int,
                    k as int,
                    before.cols,
                ),
                ..before
            }),
        decreases n - k,
    {
        let ghost was = grid@.screen;
        let gone = grid.screen.remove(bottom as usize);
        assert(rows_view(grid.screen@) =~= was.remove(bottom as int));
        let blank = fresh_row(&grid.arena, grid.cols, RowWrap::Hard);
        grid.screen.insert(top as usize, blank);
        assert(rows_view(grid.screen@) =~= was.remove(bottom as int).insert(top as int, blank@));
        grid.arena.recycle(gone.cells);
        proof {
            rows_edge_step(before.screen, top as int, bottom as int, k as int, before.cols);
        }
        k = k + 1;
    }
}

impl DamageGrid {
    /// Adds a row to the scrollback, which gives up its oldest one at its limit.
    pub(crate) fn push_scrollback(&mut self, row: Row)
        requires
            old(self).scrollback_limit > 0,
            old(self).scrollback@.len() <= old(self).scrollback_limit,
        ensures
            final(self).same_stream(*old(self)),
            final(self).dirty == old(self).dirty,
            final(self)@ == (GridV {
                scrollback: newest(old(self)@.scrollback.push(row@), old(self)@.limit),
                ..old(self)@
            }),
    {
        let ghost before = self@;
        if self.scrollback.len() >= self.scrollback_limit {
            let oldest = self.scrollback.pop_front();
            if let Some(oldest) = oldest {
                self.arena.recycle(oldest.cells);
            }
        }
        self.scrollback.push_back(row);
        assert(rows_view(self.scrollback@) =~= newest(
            before.scrollback.push(row@),
            before.limit,
        ));
        assert(self@ =~= GridV {
            scrollback: newest(before.scrollback.push(row@), before.limit),
            ..before
        });
    }

    /// Scroll the active scroll region up by `n` rows, pushing content to scrollback.
    pub(crate) fn scroll_up(&mut self, n: u16, wrap: RowWrap)
        requires
            grid_wf(old(self)@),
            old(self).dirty.wf(),
        ensures
            final(self).dirty.wf(),
            final(self).same_stream(*old(self)),
            final(self)@ == scroll_up(old(self)@, n as int, wrap),
    {
        let ghost before = self@;
        self.mutated_since_preserve = true;
        let top: u16 = self.scroll_top;
        let bottom: u16 = self.scroll_bottom;
        if top < bottom {
            self.scroll_ops.push(ScrollOp::Up { top, bottom, rows: n });
            // Scrollback only collects rows of the primary screen that leave
            // at its very top.
            let to_scrollback = !self.alt_screen && top == 0 && self.scrollback_limit > 0;
            let ghost marked = self@;
            let ghost start = *self;
            let mut k: u16 = 0;
            proof {
                rows_up_none(before.screen, top as int, bottom as int, before.cols, wrap);
                assert(rows_evicted(before.screen, bottom as int, 0, before.cols, wrap)
                    =~= Seq::empty());
                assert(before.scrollback + Seq::<RowV>::empty() =~= before.scrollback);
            }
            while k < n
                invariant
                    k <= n,
                    top < bottom < before.screen.len(),
                    self.screen@.len() == before.screen.len(),
                    marked.screen == before.screen,
                    marked.scrollback == before.scrollback,
                    marked.limit == before.limit,
                    marked.cols == before.cols,
                    before.scrollback.len() <= before.limit,
                    to_scrollback ==> top == 0 && before.limit > 0,
                    self.same_stream(start),
                    self.dirty == start.dirty,
                    self@ == (GridV {
                        screen: rows_up(
                            before.screen,
                            top as int,
                            bottom as int,
                            k as int,
                            before.cols,
                            wrap,
                        ),
                        scrollback: if to_scrollback {
                            newest(
                                before.scrollback + rows_evicted(
                                    before.screen,
                                    bottom as int,
                                    k as int,
                                    before.cols,
                                    wrap,
                                ),
                                before.limit,
                            )
                        } else {
                            before.scrollback
                        },
                        ..marked
                    }),
                decreases n - k,
            {
                let ghost was = self@.screen;
                let gone = self.screen.remove(top as usize);
                assert(rows_view(self.screen@) =~= was.remove(top as int));
                // Scroll-introduced blank lines use the default background:
                // back-color erase applies to the explicit erase ops alone.
                let blank = fresh_row(&self.arena, self.cols, wrap);
                self.screen.insert(bottom as usize, blank);
                assert(rows_view(self.screen@) =~= was.remove(top as int).insert(
                    bottom as int,
                    blank@,
                ));
                proof {
                    rows_up_step(
                        before.screen,
                        top as int,
                        bottom as int,
                        k as int,
                        before.cols,
                        wrap,
                    );
                    assert(gone@ == was[top as int]);
                }
                if to_scrollback {
                    proof {
                        let out = rows_evicted(
                            before.screen,
                            bottom as int,
                            k as int,
                            before.cols,
                            wrap,
                        );
                        assert(out.push(gone@) =~= rows_evicted(
                            before.screen,
                            bottom as int,
                            k + 1,
                            before.cols,
                            wrap,
                        ));
                        newest_push(before.scrollback, out, gone@, before.limit);
                    }
                    self.push_scrollback(gone);
                } else {
                    self.arena.recycle(gone.cells);
                }
                k = k + 1;
            }
        }
        self.mark_rows(top, bottom);
        assert(self@ =~= scroll_up(before, n as int, wrap));
    }

    /// Marks whole rows dirty.
    fn mark_rows(&mut self, top: u16, bottom: u16)
        requires
            old(self).dirty.wf(),
            top <= bottom,
        ensures
            final(self).dirty.wf(),
            final(self).same_stream(*old(self)),
            final(self)@ == (GridV {
                dirty: marked_rows(old(self)@.dirty, top as int, bottom as int),
                ..old(self)@
            }),
    {
        let ghost before = self@;
        let ghost start = *self;
        let mut r: u16 = top;
        assert(marked_rows(before.dirty, top as int, top - 1) == before.dirty);
        while r < bottom
            invariant
                top <= r <= bottom,
                self.dirty.wf(),
                self.same_stream(start),
                self@ == (GridV {
                    dirty: marked_rows(before.dirty, top as int, r - 1),
                    ..before
                }),
            decreases bottom - r,
        {
            self.dirty.mark_row(r);
            r = r + 1;
        }
        self.dirty.mark_row(bottom);
    }

    /// Newline action: move down or scroll.
    pub(crate) fn newline_action(&mut self, wrap: RowWrap)
        requires
            grid_wf(old(self)@),
            old(self).dirty.wf(),
        ensures
            final(self).dirty.wf(),
            final(self).same_stream(*old(self)),
            final(self)@ == newline(old(self)@, wrap),
    {
        let ghost before = self@;
        if self.cursor_row == self.scroll_bottom {
            self.scroll_up(1, wrap);
        } else {
            if self.cursor_row < self.rows - 1 {
                self.cursor_row = self.cursor_row + 1;
            }
            let row: usize = self.cursor_row as usize;
            self.screen[row].wrap = wrap;
            assert(rows_view(self.screen@) =~= newline(before, wrap).screen);
            assert(self@ =~= newline(before, wrap));
        }
    }

    /// Scroll the region down by `n` rows. The blanks use the default background.
    pub(crate) fn scroll_down(&mut self, n: u16)
        requires
            grid_wf(old(self)@),
            old(self).dirty.wf(),
        ensures
            final(self).dirty.wf(),
            final(self).same_stream(*old(self)),
            final(self)@ == scroll_down(old(self)@, n as int),
    {
        let ghost before = self@;
        let top: u16 = self.scroll_top;
        let bottom: u16 = self.scroll_bottom;
        self.scroll_ops.push(ScrollOp::Down { top, bottom, rows: n });
        shift_down(self, top, bottom, n);
        self.dirty.mark_all();
        assert(self@ =~= scroll_down(before, n as int));
    }

    /// Insert lines at the cursor. The blanks use the default background.
    pub(crate) fn insert_lines(&mut self, n: u16)
        requires
            grid_wf(old(self)@),
            old(self).dirty.wf(),
        ensures
            final(self).dirty.wf(),
            final(self).same_stream(*old(self)),
            final(self)@ == insert_lines(old(self)@, n as int),
    {
        let ghost before = self@;
        let row: u16 = self.cursor_row;
        let bottom: u16 = self.scroll_bottom;
        if row < self.scroll_top || row > bottom {
            return ;
        }
        self.scroll_ops.push(ScrollOp::Down { top: row, bottom, rows: n });
        shift_down(self, row, bottom, n);
        self.dirty.mark_all();
        assert(self@ =~= insert_lines(before, n as int));
    }

    /// Delete lines at the cursor. The blanks use the default background.
    pub(crate) fn delete_lines(&mut self, n: u16)
        requires
            grid_wf(old(self)@),
            old(self).dirty.wf(),
        ensures
            final(self).dirty.wf(),
            final(self).same_stream(*old(self)),
            final(self)@ == delete_lines(old(self)@, n as int),
    {
        let ghost before = self@;
        let row: u16 = self.cursor_row;
        let bottom: u16 = self.scroll_bottom;
        if row < self.scroll_top || row > bottom {
            return ;
        }
        self.scroll_ops.push(ScrollOp::Up { top: row, bottom, rows: n });
        shift_up(self, row, bottom, n);
        self.dirty.mark_all();
        assert(self@ =~= delete_lines(before, n as int));
    }

    /// The number of rows up to and with the last one that holds text.
    pub(crate) fn used_rows(&self) -> (r: usize)
        ensures
            r == rows_used(self@.screen),
            r <= self@.screen.len(),
    {
        let ghost all = self@.screen;
        let mut n: usize = self.screen.len();
        assert(all.take(n as int) =~= all);
        while n > 0
            invariant
                n <= self.screen@.len(),
                all == rows_view(self.screen@),
                rows_used(all.take(n as int)) == rows_used(all),
            decreases n,
        {
            assert(all.take(n as int).last() == all[n - 1]);
            assert(all[n - 1] == self.screen@[n - 1]@);
            if self.screen[n - 1].used() {
                return n;
            }
            assert(all.take(n as int).drop_last() =~= all.take(n - 1));
            n = n - 1;
        }
        0
    }

    /// The number of rows above the first one that holds text.
    fn unused_rows_above(&self) -> (r: usize)
        ensures
            r == rows_unused_above(self@.screen),
            r <= self@.screen.len(),
    {
        let ghost all = self@.screen;
        let mut n: usize = 0;
        assert(all.skip(0) =~= all);
        while n < self.screen.len()
            invariant
                n <= self.screen@.len(),
                all == rows_view(self.screen@),
                n + rows_unused_above(all.skip(n as int)) == rows_unused_above(all),
            decreases self.screen@.len() - n,
        {
            assert(all.skip(n as int)[0] == all[n as int]);
            assert(all[n as int] == self.screen@[n as int]@);
            if self.screen[n].used() {
                return n;
            }
            assert(all.skip(n as int).skip(1) =~= all.skip(n + 1));
            n = n + 1;
        }
        n
    }

    /// Whether the rows `first..last` are those that the last preserve kept.
    fn block_unchanged(&self, first: usize, last: usize) -> (r: bool)
        requires
            first <= last <= self.screen@.len(),
        ensures
            r == (self@.preserved == Some(cells_of(self@.screen.subrange(
                first as int,
                last as int,
            )))),
    {
        let ghost block = cells_of(self@.screen.subrange(first as int, last as int));
        match &self.last_preserved_block {
            None => false,
            Some(prev) => {
                let ghost kept = block_view(prev@);
                if prev.len() != last - first {
                    assert(kept.len() != block.len());
                    return false;
                }
                let mut i: usize = 0;
                while i < prev.len()
                    invariant
                        i <= prev@.len(),
                        first + prev@.len() == last,
                        last <= self.screen@.len(),
                        kept == block_view(prev@),
                        self@.preserved == Some(kept),
                        block == cells_of(self@.screen.subrange(first as int, last as int)),
                        forall|j: int| 0 <= j < i ==> kept[j] == block[j],
                    decreases prev@.len() - i,
                {
                    let same = same_cells(
                        prev[i].as_slice(),
                        self.screen[first + i].cells.as_slice(),
                    );
                    assert(kept[i as int] == cells_view(prev@[i as int]@));
                    assert(block[i as int] == cells_view(self.screen@[first + i].cells@));
                    if !same {
                        return false;
                    }
                    i = i + 1;
                }
                assert(kept =~= block);
                true
            },
        }
    }

    /// Push the visible primary-screen rows into scrollback before a
    /// full-screen clear (ED2, or ED0 at the home cursor). Only the
    /// non-blank span (first non-blank row through last non-blank row) is
    /// kept. No-op on the alternate screen — full-screen apps own
    /// their display and do not contribute scrollback.
    pub(crate) fn preserve_visible_rows_to_scrollback(&mut self)
        requires
            grid_wf(old(self)@),
            old(self).dirty.wf(),
        ensures
            final(self).dirty.wf(),
            final(self).same_stream(*old(self)),
            final(self)@ == preserve(old(self)@),
    {
        let ghost before = self@;
        let ghost start = *self;
        if self.alt_screen || self.scrollback_limit == 0 {
            return ;
        }
        // A clear with no content mutation since the previous preserve, or
        // whose visible block equals the last preserved one, retains nothing:
        // repeated repaint cycles cannot duplicate the transcript while
        // cleared-but-never-scrolled screens stay recoverable.
        if !self.mutated_since_preserve {
            return ;
        }
        let last: usize = self.used_rows();
        if last == 0 {
            return ;
        }
        let first: usize = self.unused_rows_above();
        proof {
            used_span(before.screen);
        }
        if self.block_unchanged(first, last) {
            self.mutated_since_preserve = false;
            assert(self@ =~= preserve(before));
            return ;
        }
        let ghost block = before.screen.subrange(first as int, last as int);
        let mut kept: Vec<Vec<Cell>> = Vec::new();
        let mut i: usize = first;
        proof {
            assert(block.take(0) =~= Seq::empty());
            assert(before.scrollback + Seq::<RowV>::empty() =~= before.scrollback);
            assert(newest(before.scrollback, before.limit) == before.scrollback);
        }
        while i < last
            invariant
                first <= i <= last <= before.screen.len(),
                before.limit > 0,
                before.scrollback.len() <= before.limit,
                block == before.screen.subrange(first as int, last as int),
                kept@.len() == i - first,
                forall|j: int|
                    0 <= j < kept@.len() ==> cells_view((#[trigger] kept@[j])@)
                        == block[j].cells,
                self.same_stream(start),
                self.dirty == start.dirty,
                self@ == (GridV {
                    scrollback: newest(
                        before.scrollback + block.take(i - first),
                        before.limit,
                    ),
                    ..before
                }),
            decreases last - i,
        {
            assert(self.screen@[i as int]@ == before.screen[i as int]);
            kept.push(copy_cells(self.screen[i].cells.as_slice()));
            let row = self.screen[i].copy();
            proof {
                assert(row@ == block[i - first]);
                assert(block.take(i - first).push(row@) =~= block.take(i + 1 - first));
                newest_push(before.scrollback, block.take(i - first), row@, before.limit);
            }
            self.push_scrollback(row);
            i = i + 1;
        }
        proof {
            assert(block.take(last - first) =~= block);
            assert(block_view(kept@) =~= cells_of(block));
        }
        self.last_preserved_block = Some(kept);
        self.mutated_since_preserve = false;
        assert(self@ =~= preserve(before));
    }
}

/// The first row with text stands before the last one.
proof fn used_span(screen: Seq<RowV>)
    requires
        rows_used(screen) > 0,
    ensures
        0 <= rows_unused_above(screen) < rows_used(screen) <= screen.len(),
        row_used(screen[rows_used(screen) - 1].cells),
    decreases screen.len(),
{
    if !row_used(screen.last().cells) {
        used_span(screen.drop_last());
        let at = rows_used(screen.drop_last()) - 1;
        assert(screen.drop_last()[at] == screen[at]);
        unused_above_bound(screen, at);
    } else {
        unused_above_bound(screen, screen.len() - 1);
    }
}

proof fn unused_above_bound(screen: Seq<RowV>, at: int)
    requires
        0 <= at < screen.len(),
        row_used(screen[at].cells),
    ensures
        0 <= rows_unused_above(screen) <= at,
    decreases screen.len(),
{
    if !row_used(screen[0].cells) {
        assert(screen.skip(1)[at - 1] == screen[at]);
        unused_above_bound(screen.skip(1), at - 1);
    }
}

/// Whether two rows of cells are equal.
pub(crate) fn same_cells(a: &[Cell], b: &[Cell]) -> (r: bool)
    ensures
        r == (cells_view(a@) == cells_view(b@)),
{
    if a.len() != b.len() {
        assert(cells_view(a@).len() != cells_view(b@).len());
        return false;
    }
    let mut i: usize = 0;
    while i < a.len()
        invariant
            i <= a@.len() == b@.len(),
            forall|j: int| 0 <= j < i ==> (#[trigger] cells_view(a@)[j]) == cells_view(b@)[j],
        decreases a@.len() - i,
    {
        if a[i] != b[i] {
            assert(cells_view(a@)[i as int] != cells_view(b@)[i as int]);
            return false;
        }
        assert(cells_view(a@)[i as int] == cells_view(b@)[i as int]);
        i = i + 1;
    }
    assert(cells_view(a@) =~= cells_view(b@));
    true
}

} // verus!
