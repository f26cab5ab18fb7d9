//! The mathematical model of the screen: rows of cells and what each editing
//! operation does to them.

use crate::cell::{bg_attrs, blank_cell, blank_with, Attrs, CellV, LinkV};
use crate::width::{char_columns, cluster_columns};
use vstd::prelude::*;

verus! {

/// How a row continues the one above it.
#[derive(Debug, Clone, Copy, PartialEq, Eq, Structural)]
pub enum RowWrap {
    /// The row starts a logical line.
    Hard,
    /// The row continues the line above it, which ran past the last column.
    Soft,
}

impl Default for RowWrap {
    fn default() -> (r: Self)
        ensures
            r == RowWrap::Hard,
    {
        RowWrap::Hard
    }
}

/// A shift of the rows `top..=bottom` by `rows` lines.
#[derive(Debug, Clone, Copy, PartialEq, Eq, Structural)]
pub enum ScrollOp {
    /// Content moved up; blank lines entered at the bottom.
    Up {
        /// First row of the region.
        top: u16,
        /// Last row of the region.
        bottom: u16,
        /// Requested number of lines.
        rows: u16,
    },
    /// Content moved down; blank lines entered at the top.
    Down {
        /// First row of the region.
        top: u16,
        /// Last row of the region.
        bottom: u16,
        /// Requested number of lines.
        rows: u16,
    },
}

/// What one row of the screen holds.
#[verifier::ext_equal]
pub struct RowV {
    pub cells: Seq<CellV>,
    pub wrap: RowWrap,
}

/// Whether the cluster ends with a zero-width joiner, and so takes in the
/// character printed next.
pub open spec fn ends_with_zwj(text: Seq<char>) -> bool {
    text.len() > 0 && text.last() == '\u{200d}'
}

/// Whether the parser hands `ch` out as a control rather than as text.
pub open spec fn is_vt_control(ch: char) -> bool {
    ch < ' ' || ('\u{80}' <= ch && ch <= '\u{9f}')
}

/// Whether printing the characters of `text` one after the other builds one
/// cluster: the first takes a column, each later one takes none by itself or
/// follows a joiner.
pub open spec fn is_cluster(text: Seq<char>) -> bool {
    &&& text.len() > 0
    &&& char_columns(text[0]) >= 1
    &&& forall|i: int| 0 <= i < text.len() ==> #[trigger] is_cluster_char(text, i)
}

/// Whether the character at `i` can stand there in a cluster.
pub open spec fn is_cluster_char(text: Seq<char>, i: int) -> bool {
    &&& !is_vt_control(text[i])
    &&& i > 0 ==> char_columns(text[i]) == 0 || text[i - 1] == '\u{200d}'
}

/// Whether the cell of a cluster is two columns wide: it is once the first
/// character, or the cluster up to some later character, is.
pub open spec fn cluster_is_wide(text: Seq<char>) -> bool
    decreases text.len(),
{
    if text.len() == 0 {
        false
    } else if text.len() == 1 {
        char_columns(text[0]) == 2
    } else {
        cluster_is_wide(text.drop_last()) || cluster_columns(text) == 2
    }
}

/// A cell that holds the cluster `text`.
pub open spec fn lead_cell(
    text: Seq<char>,
    wide: bool,
    attrs: Attrs,
    link_id: u32,
    link: Option<LinkV>,
) -> CellV {
    CellV {
        contents: text,
        is_wide: wide,
        is_wide_continuation: false,
        hyperlink_id: link_id,
        attrs,
        hyperlink: link,
    }
}

/// The second column of a wide cell.
pub open spec fn continuation_of(lead: CellV) -> CellV {
    CellV {
        contents: Seq::empty(),
        is_wide: false,
        is_wide_continuation: true,
        hyperlink_id: lead.hyperlink_id,
        attrs: lead.attrs,
        hyperlink: lead.hyperlink,
    }
}

/// A well-formed cell: a cluster with the width of its text, or a blank that
/// carries a background and nothing else, or a continuation.
pub open spec fn cell_wf(c: CellV) -> bool {
    &&& c.contents.len() > 0 ==> {
        &&& !c.is_wide_continuation
        &&& is_cluster(c.contents)
        &&& c.is_wide == cluster_is_wide(c.contents)
    }
    &&& c.contents.len() == 0 ==> {
        &&& !c.is_wide
        &&& !c.is_wide_continuation ==> c == blank_with(bg_attrs(c.attrs.background))
    }
}

/// Whether the cell at `i` is well-formed, and a continuation exactly if a wide
/// lead stands before it.
pub open spec fn cell_fits(cells: Seq<CellV>, i: int) -> bool {
    &&& cell_wf(cells[i])
    &&& cells[i].is_wide_continuation == (i > 0 && cells[i - 1].is_wide)
    &&& cells[i].is_wide_continuation ==> cells[i] == continuation_of(cells[i - 1])
}

/// A well-formed row: a continuation stands behind every wide lead and
/// nowhere else. Only in the last column does a wide lead lack one.
pub open spec fn row_wf(cells: Seq<CellV>) -> bool {
    forall|i: int| 0 <= i < cells.len() ==> #[trigger] cell_fits(cells, i)
}

/// A row of `cols` copies of `blank`.
pub open spec fn blank_cells(cols: int, blank: CellV) -> Seq<CellV> {
    Seq::new(cols as nat, |i: int| blank)
}

/// A fresh row of `cols` default cells.
pub open spec fn blank_row_v(cols: int, wrap: RowWrap) -> RowV {
    RowV { cells: blank_cells(cols, blank_cell()), wrap }
}

/// The row with the cluster `text` written at `col`. A wide cell that the
/// write cuts in two leaves a default blank in place of its other half.
pub open spec fn put_cluster(
    cells: Seq<CellV>,
    col: int,
    text: Seq<char>,
    wide: bool,
    attrs: Attrs,
    link_id: u32,
    link: Option<LinkV>,
) -> Seq<CellV> {
    let lead = lead_cell(text, wide, attrs, link_id, link);
    let end = if wide {
        col + 2
    } else {
        col + 1
    };
    Seq::new(
        cells.len(),
        |i: int|
            if i == col {
                lead
            } else if wide && i == col + 1 {
                continuation_of(lead)
            } else if i == col - 1 && cells[col].is_wide_continuation {
                blank_cell()
            } else if i == end && cells[end].is_wide_continuation {
                blank_cell()
            } else {
                cells[i]
            },
    )
}

/// The row with the columns `start..end` erased to `blank`, and with the other
/// half of a wide cell that the erase cuts in two.
pub open spec fn erased(cells: Seq<CellV>, start: int, end: int, blank: CellV) -> Seq<CellV> {
    Seq::new(
        cells.len(),
        |i: int|
            if start <= i < end {
                blank
            } else if start < end && i == start - 1 && cells[start].is_wide_continuation {
                blank
            } else if start < end && i == end && cells[end].is_wide_continuation {
                blank
            } else {
                cells[i]
            },
    )
}

/// The row with `n` default blanks inserted at `col`; what runs past the last
/// column is lost.
pub open spec fn cells_inserted(cells: Seq<CellV>, col: int, n: int) -> Seq<CellV> {
    Seq::new(
        cells.len(),
        |i: int|
            if i < col {
                cells[i]
            } else if i < col + n {
                blank_cell()
            } else {
                cells[i - n]
            },
    )
}

/// The row with `n` cells deleted at `col`: the rest moves left, and the last
/// `n` columns of the row become default blanks.
pub open spec fn cells_deleted(cells: Seq<CellV>, col: int, n: int) -> Seq<CellV> {
    Seq::new(
        cells.len(),
        |i: int|
            if i >= cells.len() - n {
                blank_cell()
            } else if i < col {
                cells[i]
            } else {
                cells[i + n]
            },
    )
}

/// Whether the cell at `i` is half of a wide cell whose other half is gone.
pub open spec fn is_orphan(cells: Seq<CellV>, i: int) -> bool {
    ||| cells[i].is_wide_continuation && (i == 0 || !cells[i - 1].is_wide)
    ||| cells[i].is_wide && (i + 1 >= cells.len() || !cells[i + 1].is_wide_continuation)
}

/// The row with every orphaned half of a wide cell made a default blank.
pub open spec fn repaired(cells: Seq<CellV>) -> Seq<CellV> {
    Seq::new(
        cells.len(),
        |i: int|
            if is_orphan(cells, i) {
                blank_cell()
            } else {
                cells[i]
            },
    )
}

/// The row fitted to `cols` columns: cut, or filled up with default blanks. A
/// wide lead that had no room for its second column gets one.
pub open spec fn cells_resized(cells: Seq<CellV>, cols: int) -> Seq<CellV> {
    Seq::new(
        cols as nat,
        |i: int|
            if i < cells.len() {
                cells[i]
            } else if i == cells.len() && i > 0 && cells[i - 1].is_wide {
                continuation_of(cells[i - 1])
            } else {
                blank_cell()
            },
    )
}

/// The rows fitted to `rows` rows of `cols` columns.
pub open spec fn rows_resized(screen: Seq<RowV>, rows: int, cols: int) -> Seq<RowV> {
    Seq::new(
        rows as nat,
        |i: int|
            if i < screen.len() {
                RowV { cells: cells_resized(screen[i].cells, cols), wrap: screen[i].wrap }
            } else {
                blank_row_v(cols, RowWrap::Hard)
            },
    )
}

/// The rows with `top..=bottom` moved up by `n`; fresh rows enter below.
pub open spec fn rows_up(
    screen: Seq<RowV>,
    top: int,
    bottom: int,
    n: int,
    cols: int,
    wrap: RowWrap,
) -> Seq<RowV> {
    Seq::new(
        screen.len(),
        |i: int|
            if i < top || i > bottom {
                screen[i]
            } else if i + n <= bottom {
                screen[i + n]
            } else {
                blank_row_v(cols, wrap)
            },
    )
}

/// The rows with `top..=bottom` moved down by `n`; fresh rows enter above.
pub open spec fn rows_down(screen: Seq<RowV>, top: int, bottom: int, n: int, cols: int) -> Seq<
    RowV,
> {
    Seq::new(
        screen.len(),
        |i: int|
            if i < top || i > bottom {
                screen[i]
            } else if i - n >= top {
                screen[i - n]
            } else {
                blank_row_v(cols, RowWrap::Hard)
            },
    )
}

/// The rows that leave at the top when `n` lines scroll up from row 0: those
/// of the region, and then the fresh rows that follow them.
pub open spec fn rows_evicted(screen: Seq<RowV>, bottom: int, n: int, cols: int, wrap: RowWrap) -> Seq<
    RowV,
> {
    Seq::new(
        n as nat,
        |i: int|
            if i <= bottom {
                screen[i]
            } else {
                blank_row_v(cols, wrap)
            },
    )
}

/// The newest `limit` rows of a history.
pub open spec fn newest(history: Seq<RowV>, limit: int) -> Seq<RowV> {
    if history.len() <= limit {
        history
    } else {
        history.skip(history.len() - limit)
    }
}

/// The row with its cells erased to `blank`; how it wraps is kept.
pub open spec fn row_blanked(row: RowV, cols: int, blank: CellV) -> RowV {
    RowV { cells: blank_cells(cols, blank), wrap: row.wrap }
}

/// Whether a row holds any text.
pub open spec fn row_used(cells: Seq<CellV>) -> bool {
    exists|i: int| 0 <= i < cells.len() && (#[trigger] cells[i]).contents.len() > 0
}

/// The number of rows up to and with the last one that holds text.
pub open spec fn rows_used(screen: Seq<RowV>) -> int
    decreases screen.len(),
{
    if screen.len() == 0 {
        0
    } else if row_used(screen.last().cells) {
        screen.len() as int
    } else {
        rows_used(screen.drop_last())
    }
}

/// The number of rows above the first one that holds text.
pub open spec fn rows_unused_above(screen: Seq<RowV>) -> int
    decreases screen.len(),
{
    if screen.len() == 0 {
        0
    } else if row_used(screen[0].cells) {
        0
    } else {
        1 + rows_unused_above(screen.skip(1))
    }
}

/// The cells of each row, without how the rows wrap.
pub open spec fn cells_of(screen: Seq<RowV>) -> Seq<Seq<CellV>> {
    Seq::new(screen.len(), |i: int| screen[i].cells)
}

} // verus!
