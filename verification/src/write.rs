//! Row edits: widths, erases, shifts, and the repair of wide cells.

use crate::cell::{blank_cell, clone_link, Attrs, Cell, CellV};
use crate::compact::compact_empty;
use crate::model::{
    blank_cells, cell_fits, cells_deleted, cells_inserted, cells_resized, continuation_of, erased,
    put_cluster, repaired, row_wf, RowV, RowWrap,
};
use vstd::prelude::*;

verus! {

/// What the cells of a row hold.
pub open spec fn cells_view(cells: Seq<Cell>) -> Seq<CellV> {
    Seq::new(cells.len(), |i: int| cells[i]@)
}

/// One row of the screen: its cells, and how it continues the row above.
#[derive(Debug)]
pub struct Row {
    pub(crate) cells: Vec<Cell>,
    pub(crate) wrap: RowWrap,
}

impl View for Row {
    type V = RowV;

    open(crate) spec fn view(&self) -> RowV {
        RowV { cells: cells_view(self.cells@), wrap: self.wrap }
    }
}

/// What rows hold.
pub open spec fn rows_view(rows: Seq<Row>) -> Seq<RowV> {
    Seq::new(rows.len(), |i: int| rows[i]@)
}

impl Row {
    /// A copy of the row.
    pub(crate) fn copy(&self) -> (r: Row)
        ensures
            r@ == self@,
    {
        let cells = copy_cells(self.cells.as_slice());
        let r = Row { cells, wrap: self.wrap };
        assert(r@ =~= self@);
        r
    }

    /// Whether any cell of the row holds text.
    pub(crate) fn used(&self) -> (r: bool)
        ensures
            r == crate::model::row_used(self@.cells),
    {
        let mut i: usize = 0;
        while i < self.cells.len()
            invariant
                i <= self.cells@.len(),
                forall|j: int| 0 <= j < i ==> (#[trigger] self@.cells[j]).contents.len() == 0,
            decreases self.cells@.len() - i,
        {
            if self.cells[i].has_contents() {
                assert(self@.cells[i as int].contents.len() > 0);
                return true;
            }
            i = i + 1;
        }
        false
    }
}

/// A copy of the cells.
pub(crate) fn copy_cells(cells: &[Cell]) -> (r: Vec<Cell>)
    ensures
        cells_view(r@) == cells_view(cells@),
{
    let mut r: Vec<Cell> = Vec::new();
    let mut i: usize = 0;
    while i < cells.len()
        invariant
            i <= cells@.len(),
            r@.len() == i,
            forall|j: int| 0 <= j < i ==> (#[trigger] r@[j])@ == cells@[j]@,
        decreases cells@.len() - i,
    {
        r.push(cells[i].clone());
        i = i + 1;
    }
    assert(cells_view(r@) =~= cells_view(cells@));
    r
}

/// Display width of a cell: 2 for wide lead, 1 for a filled narrow cell, else 0.
pub fn cell_width(cell: &Cell) -> (r: u16)
    ensures
        r == if cell@.is_wide {
            2int
        } else if cell@.is_wide_continuation || cell@.contents.len() == 0 {
            0
        } else {
            1
        },
{
    if cell.is_wide {
        2
    } else if cell.is_wide_continuation || !cell.has_contents() {
        0
    } else {
        1
    }
}

/// The row with the cell at `col` given a width of one or two columns. Only
/// the columns before `cols` are touched behind it: a wide cell gets a
/// continuation with `attrs`, which takes the place of what stood there; the
/// continuation that a narrow cell had becomes a default blank.
pub open spec fn width_set(
    cells: Seq<CellV>,
    col: int,
    width: int,
    attrs: Attrs,
    cols: int,
) -> Seq<CellV> {
    let lead = CellV { is_wide: width > 1, is_wide_continuation: false, ..cells[col] };
    Seq::new(
        cells.len(),
        |i: int|
            if i == col {
                lead
            } else if i == col + 1 && i < cols && width > 1 {
                CellV { attrs, ..continuation_of(lead) }
            } else if i == col + 1 && i < cols && cells[i].is_wide_continuation {
                blank_cell()
            } else if i == col + 2 && i < cols && width > 1 && cells[col + 1].is_wide {
                blank_cell()
            } else {
                cells[i]
            },
    )
}

/// Set lead/continuation wide-cell flags for `row[col]` after writing a glyph.
pub fn set_cell_width(row: &mut [Cell], col: usize, width: u16, attrs: Attrs, cols: usize)
    requires
        col < old(row)@.len(),
        old(row)@.len() <= usize::MAX - 2,
    ensures
        cells_view(final(row)@) == width_set(
            cells_view(old(row)@),
            col as int,
            width as int,
            attrs,
            cols as int,
        ),
{
    let ghost before = cells_view(row@);
    row[col].is_wide = width > 1;
    row[col].is_wide_continuation = false;
    if col + 1 < cols && col + 1 < row.len() {
        if width > 1 {
            // The new continuation overwrites the cell at `col + 1`; if that
            // was a wide lead, blank its now-orphaned continuation at `col + 2`.
            let orphan = row[col + 1].is_wide && col + 2 < cols && col + 2 < row.len();
            let hyperlink = clone_link(&row[col].hyperlink);
            let hyperlink_id: u32 = row[col].hyperlink_id;
            row[col + 1] = Cell {
                contents: compact_empty(),
                is_wide: false,
                is_wide_continuation: true,
                hyperlink_id,
                attrs,
                hyperlink,
            };
            if orphan {
                row[col + 2] = Cell::default();
            }
        } else if row[col + 1].is_wide_continuation {
            row[col + 1] = Cell::default();
        }
    }
    assert(cells_view(row@) =~= width_set(before, col as int, width as int, attrs, cols as int));
}

/// Writes the glyph `cell`, of `width` columns, at `col` of `row`.
pub(crate) fn write_glyph(row: &mut [Cell], col: usize, cell: Cell, width: u16)
    requires
        col < old(row)@.len() <= u16::MAX,
        row_wf(cells_view(old(row)@)),
        cell@.contents.len() > 0,
        !cell@.is_wide_continuation,
        width == 1 || width == 2,
    ensures
        cells_view(final(row)@) == put_cluster(
            cells_view(old(row)@),
            col as int,
            cell@.contents,
            width == 2,
            cell@.attrs,
            cell@.hyperlink_id,
            cell@.hyperlink,
        ),
{
    let ghost before = cells_view(row@);
    let ghost glyph = cell@;
    let attrs = cell.attrs;
    proof {
        assert(cell_fits(before, col as int));
        if col + 1 < before.len() {
            assert(cell_fits(before, col + 1));
        }
        if col + 2 < before.len() {
            assert(cell_fits(before, col + 2));
        }
    }
    if col > 0 && row[col].is_wide_continuation {
        row[col - 1] = Cell::default();
    }
    row[col] = cell;
    let ghost middle = cells_view(row@);
    let cols: usize = row.len();
    set_cell_width(row, col, width, attrs, cols);
    assert(cells_view(row@) =~= put_cluster(
        before,
        col as int,
        glyph.contents,
        width == 2,
        glyph.attrs,
        glyph.hyperlink_id,
        glyph.hyperlink,
    ));
}

/// Extends the cluster at `col` of `row` to `cell`, of `width` columns.
pub(crate) fn extend_glyph(row: &mut [Cell], col: usize, ch: char, width: u16)
    requires
        col < old(row)@.len() <= u16::MAX,
        row_wf(cells_view(old(row)@)),
        old(row)@[col as int]@.contents.len() > 0,
        width == 1 || width == 2,
        old(row)@[col as int]@.is_wide ==> width == 2,
    ensures
        ({
            let old_cell = old(row)@[col as int]@;
            cells_view(final(row)@) == put_cluster(
                cells_view(old(row)@),
                col as int,
                old_cell.contents.push(ch),
                width == 2,
                old_cell.attrs,
                old_cell.hyperlink_id,
                old_cell.hyperlink,
            )
        }),
{
    let ghost before = cells_view(row@);
    let ghost was = row@[col as int]@;
    proof {
        assert(cell_fits(before, col as int));
        if col + 1 < before.len() {
            assert(cell_fits(before, col + 1));
        }
        if col + 2 < before.len() {
            assert(cell_fits(before, col + 2));
        }
    }
    let attrs = row[col].attrs;
    crate::compact::compact_push(&mut row[col].contents, ch);
    let cols: usize = row.len();
    set_cell_width(row, col, width, attrs, cols);
    assert(cells_view(row@) =~= put_cluster(
        before,
        col as int,
        was.contents.push(ch),
        width == 2,
        was.attrs,
        was.hyperlink_id,
        was.hyperlink,
    ));
}

/// The row with `start..end` made `blank`, and with it the partner of a wide
/// cell that a boundary splits: the lead before a continuation at `start`, the
/// continuation behind a wide lead at `end - 1`.
pub open spec fn bce_erased(cells: Seq<CellV>, start: int, end: int, blank: CellV) -> Seq<CellV> {
    Seq::new(
        cells.len(),
        |i: int|
            if start <= i < end {
                blank
            } else if i == start - 1 && start < cells.len() && cells[start].is_wide_continuation {
                blank
            } else if i == end && start < end && cells[end - 1].is_wide {
                blank
            } else {
                cells[i]
            },
    )
}

/// Erase `row[start..end]` with a (possibly colored) blank, also blanking
/// a wide-char partner split by the erase boundary: a continuation at `start`
/// orphans its lead at `start - 1`, and a wide lead at `end - 1` orphans its
/// continuation at `end`. Keeps the pair invariant — a wide lead is always
/// paired with its continuation and vice versa — across erase ops, so any
/// grid state stays reproducible by a byte replay.
pub fn erase_cells_bce(row: &mut [Cell], start: usize, end: usize, blank: &Cell)
    requires
        start <= end <= old(row)@.len(),
    ensures
        cells_view(final(row)@) == bce_erased(
            cells_view(old(row)@),
            start as int,
            end as int,
            blank@,
        ),
{
    let ghost before = cells_view(row@);
    let split_lead = start > 0 && start < row.len() && row[start].is_wide_continuation;
    let split_continuation = end > start && end < row.len() && row[end - 1].is_wide;
    let mut i: usize = start;
    while i < end
        invariant
            start <= i <= end <= row@.len(),
            row@.len() == before.len(),
            forall|j: int|
                0 <= j < row@.len() ==> (#[trigger] row@[j])@ == if start <= j < i {
                    blank@
                } else {
                    before[j]
                },
        decreases end - i,
    {
        row[i] = blank.clone();
        i = i + 1;
    }
    if split_lead {
        row[start - 1] = blank.clone();
    }
    if split_continuation {
        row[end] = blank.clone();
    }
    assert(cells_view(row@) =~= bce_erased(before, start as int, end as int, blank@));
}

/// Erases `start..end` of a well-formed row.
pub(crate) fn erase_range(row: &mut [Cell], start: usize, end: usize, blank: &Cell)
    requires
        start <= end <= old(row)@.len(),
        row_wf(cells_view(old(row)@)),
    ensures
        cells_view(final(row)@) == erased(cells_view(old(row)@), start as int, end as int, blank@),
{
    let ghost before = cells_view(row@);
    if start < end {
        proof {
            assert(cell_fits(before, start as int));
            if end < before.len() {
                assert(cell_fits(before, end as int));
            }
        }
        erase_cells_bce(row, start, end, blank);
    }
    assert(cells_view(row@) =~= erased(before, start as int, end as int, blank@));
}

/// Repair wide-char pairs after an in-row cell shift (ICH/DCH): blank a wide
/// lead whose continuation was shifted away, and a continuation whose lead was
/// shifted away. Post-shift, a wide lead in the last column is always orphaned
/// (its continuation fell off the row) and is blanked as well. Blanks are
/// default cells, matching the non-BCE semantics of ICH/DCH.
pub fn repair_wide_pairs(row: &mut [Cell])
    requires
        forall|i: int|
            0 <= i < old(row)@.len() ==> !((#[trigger] old(row)@[i])@.is_wide
                && old(row)@[i]@.is_wide_continuation),
    ensures
        cells_view(final(row)@) == repaired(cells_view(old(row)@)),
{
    let ghost before = cells_view(row@);
    let cols: usize = row.len();
    let mut i: usize = 0;
    while i < cols
        invariant
            i <= cols == row@.len(),
            before.len() == cols,
            forall|j: int|
                0 <= j < cols ==> !((#[trigger] before[j]).is_wide
                    && before[j].is_wide_continuation),
            forall|j: int|
                0 <= j < cols ==> (#[trigger] row@[j])@ == if j < i {
                    repaired(before)[j]
                } else {
                    before[j]
                },
        decreases cols - i,
    {
        proof {
            if i > 0 {
                assert(row@[i - 1]@ == repaired(before)[i - 1]);
                assert(!(before[i - 1].is_wide && before[i - 1].is_wide_continuation));
            }
            assert(row@[i as int]@ == before[i as int]);
            if i + 1 < cols {
                assert(row@[i + 1]@ == before[i + 1]);
            }
        }
        let orphan_continuation = row[i].is_wide_continuation && (i == 0 || !row[i - 1].is_wide);
        let orphan_lead = row[i].is_wide && (i + 1 >= cols || !row[i + 1].is_wide_continuation);
        if orphan_continuation || orphan_lead {
            row[i] = Cell::default();
        }
        i = i + 1;
    }
    assert(cells_view(row@) =~= repaired(before));
}

/// Inserts `n` default blanks at `col`, and repairs the row.
pub(crate) fn insert_cells(row: &mut [Cell], col: usize, n: usize)
    requires
        col <= old(row)@.len() <= u16::MAX,
        1 <= n <= u16::MAX,
        row_wf(cells_view(old(row)@)),
    ensures
        cells_view(final(row)@) == repaired(
            cells_inserted(cells_view(old(row)@), col as int, n as int),
        ),
{
    let ghost before = cells_view(row@);
    let ghost done = cells_inserted(before, col as int, n as int);
    let len: usize = row.len();
    let mut i: usize = len;
    while i > col
        invariant
            col <= i <= len == row@.len(),
            before.len() == len <= u16::MAX,
            1 <= n <= u16::MAX,
            done == cells_inserted(before, col as int, n as int),
            forall|j: int|
                0 <= j < len ==> (#[trigger] row@[j])@ == if j < i {
                    before[j]
                } else {
                    done[j]
                },
        decreases i,
    {
        i = i - 1;
        if i >= col + n {
            assert(row@[i - n]@ == before[i - n]);
            let moved = row[i - n].clone();
            row[i] = moved;
        } else {
            row[i] = Cell::default();
        }
    }
    assert(cells_view(row@) =~= done);
    proof {
        crate::wellformed::cells_inserted_repairable(before, col as int, n as int);
        assert forall|j: int| 0 <= j < len implies !((#[trigger] row@[j])@.is_wide
            && row@[j]@.is_wide_continuation) by {
            assert(crate::wellformed::cell_repairable(done, j));
            assert(row@[j]@ == done[j]);
        }
    }
    repair_wide_pairs(row);
}

/// Deletes `n` cells at `col`, and repairs the row.
pub(crate) fn delete_cells(row: &mut [Cell], col: usize, n: usize)
    requires
        col <= old(row)@.len() <= u16::MAX,
        1 <= n <= u16::MAX,
        row_wf(cells_view(old(row)@)),
    ensures
        cells_view(final(row)@) == repaired(
            cells_deleted(
                erased(
                    cells_view(old(row)@),
                    col as int,
                    crate::state::least(col + n, old(row)@.len() as int),
                    blank_cell(),
                ),
                col as int,
                n as int,
            ),
        ),
{
    let ghost before = cells_view(row@);
    let len: usize = row.len();
    let end: usize = if col + n < len {
        col + n
    } else {
        len
    };
    let blank = Cell::default();
    erase_range(row, col, end, &blank);
    let ghost cut = cells_view(row@);
    let ghost done = cells_deleted(cut, col as int, n as int);
    let tail: usize = if n < len {
        len - n
    } else {
        0
    };
    let mut i: usize = 0;
    while i < len
        invariant
            i <= len == row@.len(),
            len <= u16::MAX,
            1 <= n <= u16::MAX,
            cut.len() == len,
            tail == if n < len {
                len - n
            } else {
                0
            },
            done == cells_deleted(cut, col as int, n as int),
            forall|j: int|
                0 <= j < len ==> (#[trigger] row@[j])@ == if j < i {
                    done[j]
                } else {
                    cut[j]
                },
        decreases len - i,
    {
        if i >= tail {
            row[i] = Cell::default();
        } else if i >= col {
            assert(row@[i + n]@ == cut[i + n]);
            let moved = row[i + n].clone();
            row[i] = moved;
        }
        i = i + 1;
    }
    assert(cells_view(row@) =~= done);
    proof {
        crate::wellformed::cells_deleted_repairable(before, col as int, n as int);
        assert forall|j: int| 0 <= j < len implies !((#[trigger] row@[j])@.is_wide
            && row@[j]@.is_wide_continuation) by {
            assert(crate::wellformed::cell_repairable(done, j));
            assert(row@[j]@ == done[j]);
        }
    }
    repair_wide_pairs(row);
}

/// Allocate a row of default (blank) cells.
pub fn blank_row(cols: u16) -> (r: Vec<Cell>)
    ensures
        cells_view(r@) == blank_cells(cols as int, blank_cell()),
{
    let mut r: Vec<Cell> = Vec::new();
    let mut i: u16 = 0;
    while i < cols
        invariant
            i <= cols,
            r@.len() == i,
            forall|j: int| 0 <= j < i ==> (#[trigger] r@[j])@ == blank_cell(),
        decreases cols - i,
    {
        r.push(Cell::default());
        i = i + 1;
    }
    assert(cells_view(r@) =~= blank_cells(cols as int, blank_cell()));
    r
}

/// Fits the cells of a row to `cols` columns.
pub(crate) fn resize_cells(cells: &mut Vec<Cell>, cols: u16)
    requires
        1 <= cols,
        old(cells)@.len() <= u16::MAX,
    ensures
        cells_view(final(cells)@) == cells_resized(cells_view(old(cells)@), cols as int),
{
    let ghost before = cells_view(cells@);
    let cols: usize = cols as usize;
    if cols <= cells.len() {
        cells.truncate(cols);
    } else {
        let len: usize = cells.len();
        if len > 0 && cells[len - 1].is_wide {
            let lead = &cells[len - 1];
            let rest = Cell {
                contents: compact_empty(),
                is_wide: false,
                is_wide_continuation: true,
                hyperlink_id: lead.hyperlink_id,
                attrs: lead.attrs,
                hyperlink: clone_link(&lead.hyperlink),
            };
            cells.push(rest);
        }
        while cells.len() < cols
            invariant
                before.len() == len < cols,
                len <= cells@.len() <= cols,
                forall|j: int|
                    0 <= j < cells@.len() ==> (#[trigger] cells@[j])@ == cells_resized(
                        before,
                        cols as int,
                    )[j],
                cells@.len() == len ==> !(len > 0 && before[len - 1].is_wide),
            decreases cols - cells@.len(),
        {
            cells.push(Cell::default());
        }
    }
    assert(cells_view(cells@) =~= cells_resized(before, cols as int));
}

/// Makes every cell of the row `blank`.
pub(crate) fn fill_row(row: &mut [Cell], blank: &Cell)
    ensures
        cells_view(final(row)@) == blank_cells(old(row)@.len() as int, blank@),
{
    let mut i: usize = 0;
    let len: usize = row.len();
    while i < len
        invariant
            i <= len == row@.len(),
            forall|j: int| 0 <= j < i ==> (#[trigger] row@[j])@ == blank@,
        decreases len - i,
    {
        row[i] = blank.clone();
        i = i + 1;
    }
    assert(cells_view(row@) =~= blank_cells(len as int, blank@));
}

} // verus!
