//! A pool of rows that grids share.

use crate::cell::{blank_cell, Cell};
use crate::model::{blank_cells, blank_row_v, RowWrap};
use crate::state::blank_screen;
use crate::write::{blank_row, cells_view, fill_row, rows_view, Row};
use std::sync::Arc;
use vstd::prelude::*;
use vstd::rwlock::{RwLock, RwLockPredicate};

verus! {

/// The most rows that a pool keeps.
pub const MAX_RECYCLED_ROWS: usize = 4096;

/// What holds of a pool whenever nobody has it locked: it is within bounds.
pub struct PoolBound;

impl RwLockPredicate<Vec<Vec<Cell>>> for PoolBound {
    open spec fn inv(self, rows: Vec<Vec<Cell>>) -> bool {
        rows@.len() <= MAX_RECYCLED_ROWS
    }
}

/// Whether `i` is the place of the first row of that many cells.
pub open spec fn first_of_width(rows: Seq<Vec<Cell>>, cols: u16, i: int) -> bool {
    &&& 0 <= i < rows.len()
    &&& rows[i]@.len() == cols
    &&& forall|j: int| 0 <= j < i ==> (#[trigger] rows[j])@.len() != cols
}

/// Adds a row to a pool, unless the pool is full.
pub fn pool_give(rows: &mut Vec<Vec<Cell>>, row: Vec<Cell>)
    ensures
        final(rows)@ == if old(rows)@.len() < MAX_RECYCLED_ROWS {
            old(rows)@.push(row)
        } else {
            old(rows)@
        },
{
    if rows.len() < MAX_RECYCLED_ROWS {
        rows.push(row);
    }
}

/// Takes the first row of `cols` cells out of a pool, if there is one; the last
/// row moves into its place.
pub fn pool_take(rows: &mut Vec<Vec<Cell>>, cols: u16) -> (r: Option<Vec<Cell>>)
    ensures
        match r {
            None => {
                &&& final(rows)@ == old(rows)@
                &&& forall|i: int| 0 <= i < old(rows)@.len() ==> (#[trigger] old(rows)@[i])@.len()
                    != cols
            },
            Some(row) => exists|i: int|
                {
                    &&& #[trigger] first_of_width(old(rows)@, cols, i)
                    &&& row == old(rows)@[i]
                    &&& final(rows)@ == old(rows)@.update(i, old(rows)@.last()).drop_last()
                },
        },
{
    let mut i: usize = 0;
    while i < rows.len()
        invariant
            i <= rows@.len(),
            rows@ == old(rows)@,
            forall|j: int| 0 <= j < i ==> (#[trigger] rows@[j])@.len() != cols,
        decreases rows@.len() - i,
    {
        if rows[i].len() == cols as usize {
            assert(first_of_width(old(rows)@, cols, i as int));
            return Some(rows.swap_remove(i));
        }
        i = i + 1;
    }
    None
}

/// Shared row arena for terminal grids: rows that one grid gives up are used
/// again by the next, whatever grid that is. Clones share the same rows.
pub struct RowArena {
    inner: Arc<RwLock<Vec<Vec<Cell>>, PoolBound>>,
}

impl Default for RowArena {
    fn default() -> (r: Self) {
        let rows: Vec<Vec<Cell>> = Vec::new();
        RowArena { inner: Arc::new(RwLock::new(rows, Ghost(PoolBound))) }
    }
}

impl Clone for RowArena {
    fn clone(&self) -> (r: Self) {
        RowArena { inner: Arc::clone(&self.inner) }
    }
}

impl RowArena {
    /// A row of default cells: a recycled one of that width, or a new one.
    pub fn blank_row(&self, cols: u16) -> (r: Vec<Cell>)
        ensures
            cells_view(r@) == blank_cells(cols as int, blank_cell()),
    {
        let (mut rows, handle) = self.inner.acquire_write();
        let found = pool_take(&mut rows, cols);
        handle.release_write(rows);
        match found {
            Some(mut row) => {
                let blank = Cell::default();
                fill_row(row.as_mut_slice(), &blank);
                row
            },
            None => blank_row(cols),
        }
    }

    /// Gives a row up for reuse, unless the pool is full.
    pub fn recycle(&self, row: Vec<Cell>) {
        let mut row = row;
        let blank = Cell::default();
        fill_row(row.as_mut_slice(), &blank);
        let (mut rows, handle) = self.inner.acquire_write();
        pool_give(&mut rows, row);
        handle.release_write(rows);
    }

    /// The number of rows that wait for reuse: never more than the pool keeps.
    pub fn recycled_rows(&self) -> (r: usize)
        ensures
            r <= MAX_RECYCLED_ROWS,
    {
        let handle = self.inner.acquire_read();
        let n: usize = handle.borrow().len();
        handle.release_read();
        n
    }
}

/// A fresh row that starts a logical line or continues one.
pub(crate) fn fresh_row(arena: &RowArena, cols: u16, wrap: RowWrap) -> (r: Row)
    ensures
        r@ == blank_row_v(cols as int, wrap),
{
    let r = Row { cells: arena.blank_row(cols), wrap };
    assert(r@ =~= blank_row_v(cols as int, wrap));
    r
}

/// Build a blank screen of `rows` × `cols` using `arena` for row reuse.
pub fn make_blank_grid(rows: u16, cols: u16, arena: &RowArena) -> (r: Vec<Row>)
    ensures
        rows_view(r@) == blank_screen(rows as int, cols as int),
{
    let mut r: Vec<Row> = Vec::new();
    let mut i: u16 = 0;
    while i < rows
        invariant
            i <= rows,
            r@.len() == i,
            forall|j: int|
                0 <= j < i ==> (#[trigger] r@[j])@ == blank_row_v(cols as int, RowWrap::Hard),
        decreases rows - i,
    {
        r.push(fresh_row(arena, cols, RowWrap::Hard));
        i = i + 1;
    }
    assert(rows_view(r@) =~= blank_screen(rows as int, cols as int));
    r
}

} // verus!
