//! Erasing and shifting cells of a grid, and fitting it to other dimensions.

use crate::cell::{blank_cell, Cell};
use crate::grid::DamageGrid;
use crate::model::{blank_row_v, erased, row_blanked, rows_resized, RowWrap};
use crate::passthrough::PassthroughEvent;
use crate::state::{
    delete_chars, erase_blank, erase_chars, erase_display, erase_line, grid_wf, insert_chars, line,
    resized, rows_blanked, with_cells, GridV,
};
use crate::wellformed::resized_wf;
use crate::write::{delete_cells, erase_range, fill_row, insert_cells, resize_cells, rows_view, Row};
use vstd::prelude::*;

verus! {

/// Whether the screen has as many rows and columns as the dimensions say.
spec fn has_size(g: GridV) -> bool {
    &&& g.screen.len() == g.rows
    &&& forall|i: int| 0 <= i < g.rows ==> (#[trigger] g.screen[i]).cells.len() == g.cols
}

impl DamageGrid {
    /// A blank cell carrying the current background color (back-color erase).
    /// The erase ops (EL/ED/ECH) introduce blanks that inherit the active SGR
    /// background.
    fn blank_cell(&self) -> (r: Cell)
        ensures
            r@ == erase_blank(self@),
    {
        let mut cell = Cell::default();
        cell.attrs.background = self.current_attrs.background;
        cell
    }

    /// Erases the columns `start..end` of the cursor's row.
    fn erase_columns(&mut self, start: u16, end: u16)
        requires
            grid_wf(old(self)@),
            start <= end <= old(self).cols,
        ensures
            final(self).dirty == old(self).dirty,
            final(self).same_stream(*old(self)),
            final(self)@ == (GridV {
                screen: with_cells(
                    old(self)@.screen,
                    old(self)@.row,
                    erased(line(old(self)@), start as int, end as int, erase_blank(old(self)@)),
                ),
                ..old(self)@
            }),
    {
        let ghost before = self@;
        let row: usize = self.cursor_row as usize;
        let blank = self.blank_cell();
        assert(self.screen@[row as int]@ == before.screen[row as int]);
        erase_range(self.screen[row].cells.as_mut_slice(), start as usize, end as usize, &blank);
        let ghost done = with_cells(
            before.screen,
            before.row,
            erased(line(before), start as int, end as int, erase_blank(before)),
        );
        assert(rows_view(self.screen@) =~= done);
        assert(self@ =~= GridV { screen: done, ..before });
    }

    /// Erases the rows `from..to`. How they wrap is kept.
    fn erase_rows(&mut self, from: u16, to: u16)
        requires
            has_size(old(self)@),
            from <= to <= old(self).rows,
        ensures
            final(self).dirty == old(self).dirty,
            final(self).same_stream(*old(self)),
            final(self)@ == (GridV {
                screen: rows_blanked(
                    old(self)@.screen,
                    from as int,
                    to as int,
                    old(self)@.cols,
                    erase_blank(old(self)@),
                ),
                ..old(self)@
            }),
    {
        let ghost before = self@;
        let ghost start = *self;
        let blank = self.blank_cell();
        let mut r: u16 = from;
        assert(rows_blanked(before.screen, from as int, from as int, before.cols, blank@)
            =~= before.screen);
        while r < to
            invariant
                from <= r <= to <= before.rows,
                has_size(before),
                blank@ == erase_blank(before),
                self.dirty == start.dirty,
                self.same_stream(start),
                self@ == (GridV {
                    screen: rows_blanked(
                        before.screen,
                        from as int,
                        r as int,
                        before.cols,
                        erase_blank(before),
                    ),
                    ..before
                }),
            decreases to - r,
        {
            let ghost was = self@.screen;
            assert(was.len() == before.screen.len());
            assert(self.screen@[r as int]@ == was[r as int]);
            assert(was[r as int] == before.screen[r as int]);
            assert(before.screen[r as int].cells.len() == before.cols);
            fill_row(self.screen[r as usize].cells.as_mut_slice(), &blank);
            assert(self.screen@[r as int]@ =~= row_blanked(
                before.screen[r as int],
                before.cols,
                blank@,
            ));
            assert forall|j: int| 0 <= j < was.len() && j != r implies rows_view(self.screen@)[j]
                == was[j] by {}
            let ghost now = rows_blanked(
                before.screen,
                from as int,
                r + 1,
                before.cols,
                erase_blank(before),
            );
            assert forall|j: int| 0 <= j < now.len() implies rows_view(self.screen@)[j]
                == now[j] by {
                if j != r {
                    assert(rows_view(self.screen@)[j] == was[j]);
                    assert(was[j] == rows_blanked(
                        before.screen,
                        from as int,
                        r as int,
                        before.cols,
                        erase_blank(before),
                    )[j]);
                }
            }
            r = r + 1;
            assert(rows_view(self.screen@) =~= now);
        }
    }

    /// Erase in line: from the cursor (0), up to it (1), the whole row (2).
    pub(crate) fn erase_line(&mut self, mode: u16)
        requires
            grid_wf(old(self)@),
            old(self).dirty.wf(),
        ensures
            final(self).dirty.wf(),
            final(self).same_stream(*old(self)),
            final(self)@ == erase_line(old(self)@, mode),
    {
        let ghost before = self@;
        let row: u16 = self.cursor_row;
        let col: u16 = self.cursor_col;
        let cols: u16 = self.cols;
        match mode {
            0 => {
                let start: u16 = self.touched_start(col);
                self.erase_columns(col, cols);
                self.dirty.mark_range(row, start, cols);
                assert(self@ =~= erase_line(before, mode));
            },
            1 => {
                let end: u16 = if col >= cols {
                    cols
                } else {
                    col + 1
                };
                let touched: u16 = self.touched_end(end as u32);
                self.erase_columns(0, end);
                self.dirty.mark_range(row, 0, touched);
                assert(self@ =~= erase_line(before, mode));
            },
            2 => {
                let blank = self.blank_cell();
                assert(self.screen@[row as int]@ == before.screen[row as int]);
                fill_row(self.screen[row as usize].cells.as_mut_slice(), &blank);
                assert(rows_view(self.screen@) =~= erase_line(before, mode).screen);
                self.dirty.mark_row(row);
                assert(self@ =~= erase_line(before, mode));
            },
            _ => {},
        }
    }

    /// Erase in display.
    pub(crate) fn erase_display(&mut self, mode: u16)
        requires
            grid_wf(old(self)@),
            old(self).dirty.wf(),
        ensures
            final(self).dirty.wf(),
            final(self).same_stream(*old(self)),
            final(self)@ == erase_display(old(self)@, mode),
    {
        let ghost before = self@;
        match mode {
            0 => {
                self.erase_below();
            },
            1 => {
                self.erase_above();
            },
            2 => {
                self.preserve_visible_rows_to_scrollback();
                self.erase_rows(0, self.rows);
                self.dirty.mark_all();
                assert(self@ =~= erase_display(before, 2));
            },
            3 => {
                self.drop_scrollback();
                self.erase_rows(0, self.rows);
                self.passthrough.push(PassthroughEvent::ScrollbackClear);
                self.dirty.mark_all();
                assert(self@ =~= erase_display(before, 3));
            },
            _ => {
                self.dirty.mark_all();
                assert(self@ =~= erase_display(before, mode));
            },
        }
    }

    /// Erases from the cursor on.
    fn erase_below(&mut self)
        requires
            grid_wf(old(self)@),
            old(self).dirty.wf(),
        ensures
            final(self).dirty.wf(),
            final(self).same_stream(*old(self)),
            final(self)@ == erase_display(old(self)@, 0),
    {
        let ghost before = self@;
        // ED0 at the home cursor is the clear/redraw shape that shells use;
        // preserve the visible rows before blanking them.
        if self.cursor_row == 0 && self.cursor_col == 0 {
            self.preserve_visible_rows_to_scrollback();
        }
        let ghost kept = self@;
        assert(kept.screen == before.screen);
        assert(grid_wf(kept));
        self.erase_columns(self.cursor_col, self.cols);
        self.erase_rows(self.cursor_row + 1, self.rows);
        self.dirty.mark_all();
        assert(self@ =~= erase_display(before, 0));
    }

    /// Erases up to and with the cursor.
    fn erase_above(&mut self)
        requires
            grid_wf(old(self)@),
            old(self).dirty.wf(),
        ensures
            final(self).dirty.wf(),
            final(self).same_stream(*old(self)),
            final(self)@ == erase_display(old(self)@, 1),
    {
        let ghost before = self@;
        let end: u16 = if self.cursor_col >= self.cols {
            self.cols
        } else {
            self.cursor_col + 1
        };
        self.erase_columns(0, end);
        self.erase_rows(0, self.cursor_row);
        self.dirty.mark_all();
        assert(self@ =~= erase_display(before, 1));
    }

    /// Empties the scrollback.
    pub(crate) fn drop_scrollback(&mut self)
        ensures
            final(self).dirty == old(self).dirty,
            final(self).same_stream(*old(self)),
            final(self)@ == (GridV { scrollback: Seq::empty(), offset: 0, ..old(self)@ }),
    {
        let ghost before = self@;
        let ghost start = *self;
        let mut row = self.scrollback.pop_front();
        while row.is_some()
            invariant
                self.dirty == start.dirty,
                self.same_stream(start),
                self@ == (GridV { scrollback: rows_view(self.scrollback@), ..before }),
                row is None ==> self.scrollback@.len() == 0,
            decreases self.scrollback@.len() + if row is Some {
                1int
            } else {
                0
            },
        {
            if let Some(gone) = row {
                self.arena.recycle(gone.cells);
            }
            row = self.scrollback.pop_front();
        }
        self.scrollback_offset = 0;
        assert(self@ =~= GridV { scrollback: Seq::empty(), offset: 0, ..before });
    }

    /// Erase characters at the cursor.
    pub(crate) fn erase_chars(&mut self, n: u16)
        requires
            grid_wf(old(self)@),
            old(self).dirty.wf(),
        ensures
            final(self).dirty.wf(),
            final(self).same_stream(*old(self)),
            final(self)@ == erase_chars(old(self)@, n as int),
    {
        let ghost before = self@;
        let col: u16 = self.cursor_col;
        let end: u16 = if n > self.cols - col {
            self.cols
        } else {
            col + n
        };
        let start: u16 = self.touched_start(col);
        let touched: u16 = self.touched_end(end as u32);
        self.erase_columns(col, end);
        self.dirty.mark_range(self.cursor_row, start, touched);
        assert(self@ =~= erase_chars(before, n as int));
    }

    /// Insert blank characters at the cursor, unless it is parked. They use the
    /// default background: ICH is not a back-color-erase op.
    pub(crate) fn insert_chars(&mut self, n: u16)
        requires
            grid_wf(old(self)@),
            old(self).dirty.wf(),
            n >= 1,
        ensures
            final(self).dirty.wf(),
            final(self).same_stream(*old(self)),
            final(self)@ == insert_chars(old(self)@, n as int),
    {
        let ghost before = self@;
        let row: usize = self.cursor_row as usize;
        let col: u16 = self.cursor_col;
        if col >= self.cols {
            return ;
        }
        let start: u16 = self.touched_start(col);
        assert(self.screen@[row as int]@ == before.screen[row as int]);
        insert_cells(self.screen[row].cells.as_mut_slice(), col as usize, n as usize);
        assert(rows_view(self.screen@) =~= insert_chars(before, n as int).screen);
        self.dirty.mark_range(self.cursor_row, start, self.cols);
        assert(self@ =~= insert_chars(before, n as int));
    }

    /// Delete characters at the cursor. The fill uses the default background.
    pub(crate) fn delete_chars(&mut self, n: u16)
        requires
            grid_wf(old(self)@),
            old(self).dirty.wf(),
            n >= 1,
        ensures
            final(self).dirty.wf(),
            final(self).same_stream(*old(self)),
            final(self)@ == delete_chars(old(self)@, n as int),
    {
        let ghost before = self@;
        let row: usize = self.cursor_row as usize;
        let col: u16 = self.cursor_col;
        let tail: u16 = if n < self.cols {
            self.cols - n
        } else {
            0
        };
        let start: u16 = self.touched_start(
            if col < tail {
                col
            } else {
                tail
            },
        );
        assert(self.screen@[row as int]@ == before.screen[row as int]);
        delete_cells(self.screen[row].cells.as_mut_slice(), col as usize, n as usize);
        assert(rows_view(self.screen@) =~= delete_chars(before, n as int).screen);
        self.dirty.mark_range(self.cursor_row, start, self.cols);
        assert(self@ =~= delete_chars(before, n as int));
    }

    /// Resize the grid. Marks all rows dirty. The content is kept as far as it
    /// fits; a grid has at least one row and one column.
    pub fn set_size(&mut self, rows: u16, cols: u16)
        requires
            old(self).wf(),
        ensures
            final(self).wf(),
            final(self)@ == resized(
                old(self)@,
                if rows == 0 {
                    1
                } else {
                    rows as int
                },
                if cols == 0 {
                    1
                } else {
                    cols as int
                },
            ),
            final(self).fed() == old(self).fed(),
            final(self).held() == old(self).held(),
    {
        let ghost before = self@;
        let rows: u16 = if rows == 0 {
            1
        } else {
            rows
        };
        let cols: u16 = if cols == 0 {
            1
        } else {
            cols
        };
        proof {
            resized_wf(before, rows as int, cols as int);
        }
        self.rows = rows;
        self.cols = cols;
        resize_rows(&mut self.screen, rows, cols);
        resize_rows(&mut self.hidden, rows, cols);
        if self.cursor_row >= rows {
            self.cursor_row = rows - 1;
        }
        // A deferred wrap is cancelled: the cursor is brought onto the screen.
        if self.cursor_col >= cols {
            self.cursor_col = cols - 1;
        }
        self.wrap_cancelled = false;
        self.scroll_top = 0;
        self.scroll_bottom = rows - 1;
        self.last_was_print = false;
        self.dirty.resize(rows);
        assert(self@ =~= resized(before, rows as int, cols as int));
    }
}

/// Fits rows to `rows` rows of `cols` columns.
fn resize_rows(screen: &mut Vec<Row>, rows: u16, cols: u16)
    requires
        1 <= cols,
        forall|i: int|
            0 <= i < old(screen)@.len() ==> (#[trigger] rows_view(old(screen)@)[i]).cells.len()
                <= u16::MAX,
    ensures
        rows_view(final(screen)@) == rows_resized(
            rows_view(old(screen)@),
            rows as int,
            cols as int,
        ),
{
    let ghost before = rows_view(screen@);
    let ghost done = rows_resized(before, rows as int, cols as int);
    if screen.len() > rows as usize {
        screen.truncate(rows as usize);
    }
    let len: usize = screen.len();
    let mut i: usize = 0;
    while i < len
        invariant
            i <= len == screen@.len(),
            len <= rows,
            len <= before.len(),
            len < rows ==> len == before.len(),
            1 <= cols,
            done == rows_resized(before, rows as int, cols as int),
            forall|j: int|
                0 <= j < before.len() ==> (#[trigger] before[j]).cells.len() <= u16::MAX,
            forall|j: int|
                0 <= j < len ==> (#[trigger] screen@[j])@ == if j < i {
                    done[j]
                } else {
                    before[j]
                },
        decreases len - i,
    {
        assert(screen@[i as int]@ == before[i as int]);
        resize_cells(&mut screen[i].cells, cols);
        assert(screen@[i as int]@ =~= done[i as int]);
        i = i + 1;
    }
    while screen.len() < rows as usize
        invariant
            len <= screen@.len() <= rows,
            len < rows ==> len == before.len(),
            done == rows_resized(before, rows as int, cols as int),
            forall|j: int| 0 <= j < screen@.len() ==> (#[trigger] screen@[j])@ == done[j],
        decreases rows - screen@.len(),
    {
        let row = Row { cells: crate::write::blank_row(cols), wrap: RowWrap::Hard };
        assert(row@ =~= blank_row_v(cols as int, RowWrap::Hard));
        screen.push(row);
    }
    assert(rows_view(screen@) =~= done);
}

} // verus!
