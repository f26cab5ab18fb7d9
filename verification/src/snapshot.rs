//! Observing a grid: owned snapshots, borrowed views, and dirty patches.

use crate::cell::{Cell, CellV, Color, UnderlineStyle};
use crate::damage::{covers, DirtySpan, DirtySpans, DirtyV};
use crate::grid::DamageGrid;
use crate::model::{RowV, RowWrap};
use crate::state::{grid_wf, least, GridV};
use crate::write::{cells_view, rows_view, Row};
use std::collections::VecDeque;
use vstd::prelude::*;
use vstd::string::StringExecFns;

verus! {

/// Boolean text attributes of a snapshot cell.
#[derive(Debug, Clone, Copy, PartialEq, Eq, Structural)]
pub struct SnapAttributes {
    /// SGR bold.
    pub bold: bool,
    /// SGR italic.
    pub italic: bool,
    /// Any underline style.
    pub underline: bool,
    /// SGR reverse video.
    pub inverse: bool,
    /// SGR faint/dim.
    pub dim: bool,
    /// SGR strikethrough.
    pub strikethrough: bool,
    /// SGR slow blink.
    pub slow_blink: bool,
    /// SGR rapid blink.
    pub rapid_blink: bool,
    /// SGR conceal/hidden.
    pub conceal: bool,
    /// SGR overline.
    pub overline: bool,
}

/// An owned copy of one cell.
#[derive(Debug, Clone, PartialEq, Eq)]
pub struct SnapCell {
    /// Grapheme cluster. Empty = blank.
    pub text: String,
    /// True for the lead column of a wide character.
    pub is_wide: bool,
    /// True for the second column of a wide character.
    pub is_wide_continuation: bool,
    /// Foreground color.
    pub fg: Color,
    /// Background color.
    pub bg: Color,
    /// Boolean text attributes.
    pub attributes: SnapAttributes,
    /// Underline style.
    pub underline_style: UnderlineStyle,
    /// Underline color.
    pub underline_color: Color,
    /// OSC 8 link id, when the cell has a link.
    pub hyperlink_id: Option<String>,
    /// OSC 8 link target, when the cell has a link.
    pub hyperlink_uri: Option<String>,
}

/// What a [`SnapCell`] holds.
#[verifier::ext_equal]
pub struct SnapV {
    pub text: Seq<char>,
    pub is_wide: bool,
    pub is_wide_continuation: bool,
    pub fg: Color,
    pub bg: Color,
    pub attributes: SnapAttributes,
    pub underline_style: UnderlineStyle,
    pub underline_color: Color,
    pub hyperlink_id: Option<Seq<char>>,
    pub hyperlink_uri: Option<Seq<char>>,
}

/// What an optional text holds.
pub open spec fn text_view(text: Option<String>) -> Option<Seq<char>> {
    match text {
        Some(t) => Some(t@),
        None => None,
    }
}

impl View for SnapCell {
    type V = SnapV;

    open spec fn view(&self) -> SnapV {
        SnapV {
            text: self.text@,
            is_wide: self.is_wide,
            is_wide_continuation: self.is_wide_continuation,
            fg: self.fg,
            bg: self.bg,
            attributes: self.attributes,
            underline_style: self.underline_style,
            underline_color: self.underline_color,
            hyperlink_id: text_view(self.hyperlink_id),
            hyperlink_uri: text_view(self.hyperlink_uri),
        }
    }
}

/// The snapshot of a cell.
pub open spec fn snap_of(cell: CellV) -> SnapV {
    let a = cell.attrs;
    SnapV {
        text: cell.contents,
        is_wide: cell.is_wide,
        is_wide_continuation: cell.is_wide_continuation,
        fg: a.foreground,
        bg: a.background,
        attributes: SnapAttributes {
            bold: a.bold,
            italic: a.italic,
            underline: a.underline_style != UnderlineStyle::Off,
            inverse: a.inverse,
            dim: a.dim,
            strikethrough: a.strikethrough,
            slow_blink: a.slow_blink,
            rapid_blink: a.rapid_blink,
            conceal: a.conceal,
            overline: a.overline,
        },
        underline_style: a.underline_style,
        underline_color: a.underline_color,
        hyperlink_id: match cell.hyperlink {
            Some(link) => Some(link.id),
            None => None,
        },
        hyperlink_uri: match cell.hyperlink {
            Some(link) => Some(link.uri),
            None => None,
        },
    }
}

impl SnapCell {
    /// The snapshot of a cell.
    pub fn of(cell: &Cell) -> (r: Self)
        ensures
            r@ == snap_of(cell@),
    {
        let a = cell.attrs;
        let r = SnapCell {
            text: cell.contents().to_owned(),
            is_wide: cell.is_wide,
            is_wide_continuation: cell.is_wide_continuation,
            fg: a.foreground,
            bg: a.background,
            attributes: SnapAttributes {
                bold: a.bold,
                italic: a.italic,
                underline: a.underline_style != UnderlineStyle::Off,
                inverse: a.inverse,
                dim: a.dim,
                strikethrough: a.strikethrough,
                slow_blink: a.slow_blink,
                rapid_blink: a.rapid_blink,
                conceal: a.conceal,
                overline: a.overline,
            },
            underline_style: a.underline_style,
            underline_color: a.underline_color,
            hyperlink_id: match &cell.hyperlink {
                Some(link) => Some(link.id.clone()),
                None => None,
            },
            hyperlink_uri: match &cell.hyperlink {
                Some(link) => Some(link.uri.clone()),
                None => None,
            },
        };
        assert(r@ =~= snap_of(cell@));
        r
    }

    /// True when the cell holds no text.
    pub fn is_blank(&self) -> (r: bool)
        ensures
            r == (self@.text.len() == 0),
    {
        self.text.as_str().unicode_len() == 0
    }

    /// True when the cell holds text.
    pub fn has_contents(&self) -> (r: bool)
        ensures
            r == (self@.text.len() > 0),
    {
        !self.is_blank()
    }
}

/// What a row of snapshot cells holds.
pub open spec fn snaps_view(cells: Seq<SnapCell>) -> Seq<SnapV> {
    Seq::new(cells.len(), |i: int| cells[i]@)
}

/// What rows of snapshot cells hold.
pub open spec fn snap_rows_view(rows: Seq<Vec<SnapCell>>) -> Seq<Seq<SnapV>> {
    Seq::new(rows.len(), |i: int| snaps_view(rows[i]@))
}

/// The snapshot of a row.
pub open spec fn snap_row(cells: Seq<CellV>) -> Seq<SnapV> {
    Seq::new(cells.len(), |i: int| snap_of(cells[i]))
}

/// The snapshot of rows.
pub open spec fn snap_rows(rows: Seq<RowV>) -> Seq<Seq<SnapV>> {
    Seq::new(rows.len(), |i: int| snap_row(rows[i].cells))
}

/// How rows continue the ones above them.
pub open spec fn wraps_of(rows: Seq<RowV>) -> Seq<RowWrap> {
    Seq::new(rows.len(), |i: int| rows[i].wrap)
}

fn copy_row(cells: &[Cell]) -> (r: Vec<SnapCell>)
    ensures
        snaps_view(r@) == snap_row(cells_view(cells@)),
{
    let mut r: Vec<SnapCell> = Vec::new();
    let mut i: usize = 0;
    while i < cells.len()
        invariant
            i <= cells@.len(),
            r@.len() == i,
            forall|j: int| 0 <= j < i ==> (#[trigger] r@[j])@ == snap_of(cells@[j]@),
        decreases cells@.len() - i,
    {
        r.push(SnapCell::of(&cells[i]));
        i = i + 1;
    }
    assert(snaps_view(r@) =~= snap_row(cells_view(cells@)));
    r
}

/// An owned copy of a screen.
#[derive(Debug, PartialEq, Eq)]
pub struct GridSnapshot {
    /// Number of rows.
    pub rows: u16,
    /// Number of columns.
    pub cols: u16,
    /// Cursor position `(row, col)`.
    pub cursor: (u16, u16),
    /// Whether the alternate screen is shown.
    pub alternate_screen: bool,
    /// The cells, row by row.
    pub cells: Vec<Vec<SnapCell>>,
    /// How each row continues the one above it.
    pub row_wraps: Vec<RowWrap>,
}

impl GridSnapshot {
    /// Whether the snapshot shows the given rows of a state.
    pub open spec fn shows(self, g: GridV, rows: Seq<RowV>, n: int) -> bool {
        &&& self.rows == n
        &&& self.cols == g.cols
        &&& self.cursor == (g.row as u16, g.col as u16)
        &&& self.alternate_screen == g.alt
        &&& snap_rows_view(self.cells@) == snap_rows(rows)
        &&& self.row_wraps@ == wraps_of(rows)
    }

    /// The cell at a position, if there is one.
    pub fn cell(&self, row: u16, col: u16) -> (r: Option<&SnapCell>)
        ensures
            match r {
                Some(cell) => row < self.cells@.len() && col < self.cells@[row as int]@.len()
                    && *cell == self.cells@[row as int]@[col as int],
                None => row >= self.cells@.len() || col >= self.cells@[row as int]@.len(),
            },
    {
        if (row as usize) < self.cells.len() {
            let cells = &self.cells[row as usize];
            if (col as usize) < cells.len() {
                return Some(&cells[col as usize]);
            }
        }
        None
    }

    /// The rows as text, one per line: blanks are spaces, and the spaces at the
    /// end of a row are left out.
    pub fn to_text(&self) -> (r: String)
        ensures
            r@ == snapshot_text(snap_rows_view(self.cells@)),
    {
        let ghost all = snap_rows_view(self.cells@);
        let mut out = String::new();
        let mut i: usize = 0;
        assert(all.take(0) =~= Seq::empty());
        assert(out@ =~= Seq::empty());
        while i < self.cells.len()
            invariant
                i <= self.cells@.len(),
                all == snap_rows_view(self.cells@),
                out@ == snapshot_text(all.take(i as int)),
            decreases self.cells@.len() - i,
        {
            let ghost now = all.take(i + 1);
            proof {
                assert(now.drop_last() =~= all.take(i as int));
                assert(now.last() == snaps_view(self.cells@[i as int]@));
            }
            let ghost before = out@;
            if i > 0 {
                out.append("\n");
            }
            append_row_text(&mut out, self.cells[i].as_slice());
            proof {
                let row = trimmed(row_text(now.last()));
                if i == 0 {
                    assert(out@ =~= row);
                } else {
                    assert(out@ =~= before + "\n"@ + row);
                }
            }
            i = i + 1;
        }
        assert(all.take(i as int) =~= all);
        out
    }

    /// The number of cells that hold text.
    pub fn non_blank_count(&self) -> (r: usize)
        requires
            texts_in_rows(snap_rows_view(self.cells@)) <= usize::MAX,
        ensures
            r == texts_in_rows(snap_rows_view(self.cells@)),
    {
        let ghost all = snap_rows_view(self.cells@);
        let mut count: usize = 0;
        let mut i: usize = 0;
        assert(all.take(0) =~= Seq::empty());
        while i < self.cells.len()
            invariant
                i <= self.cells@.len(),
                all == snap_rows_view(self.cells@),
                texts_in_rows(all) <= usize::MAX,
                count == texts_in_rows(all.take(i as int)),
            decreases self.cells@.len() - i,
        {
            proof {
                assert(all.take(i + 1).drop_last() =~= all.take(i as int));
                assert(all.take(i + 1).last() == snaps_view(self.cells@[i as int]@));
                texts_grow(all, i + 1);
            }
            count = count + count_texts(self.cells[i].as_slice());
            i = i + 1;
        }
        assert(all.take(i as int) =~= all);
        count
    }
}

/// The number of cells of a row that hold text.
pub open spec fn texts_in_row(cells: Seq<SnapV>) -> nat
    decreases cells.len(),
{
    if cells.len() == 0 {
        0
    } else {
        texts_in_row(cells.drop_last()) + if cells.last().text.len() > 0 {
            1nat
        } else {
            0
        }
    }
}

/// The number of cells that hold text.
pub open spec fn texts_in_rows(rows: Seq<Seq<SnapV>>) -> nat
    decreases rows.len(),
{
    if rows.len() == 0 {
        0
    } else {
        texts_in_rows(rows.drop_last()) + texts_in_row(rows.last())
    }
}

/// The first rows hold no more cells with text than all rows do.
proof fn texts_grow(rows: Seq<Seq<SnapV>>, n: int)
    requires
        0 <= n <= rows.len(),
    ensures
        texts_in_rows(rows.take(n)) <= texts_in_rows(rows),
    decreases rows.len(),
{
    if n == rows.len() {
        assert(rows.take(n) =~= rows);
    } else {
        texts_grow(rows.drop_last(), n);
        assert(rows.drop_last().take(n) =~= rows.take(n));
    }
}

fn count_texts(cells: &[SnapCell]) -> (r: usize)
    ensures
        r == texts_in_row(snaps_view(cells@)),
{
    let ghost all = snaps_view(cells@);
    let mut count: usize = 0;
    let mut i: usize = 0;
    assert(all.take(0) =~= Seq::empty());
    while i < cells.len()
        invariant
            i <= cells@.len(),
            all == snaps_view(cells@),
            count == texts_in_row(all.take(i as int)),
            count <= i,
        decreases cells@.len() - i,
    {
        proof {
            assert(all.take(i + 1).drop_last() =~= all.take(i as int));
            assert(all.take(i + 1).last() == cells@[i as int]@);
        }
        if cells[i].has_contents() {
            count = count + 1;
        }
        i = i + 1;
    }
    assert(all.take(i as int) =~= all);
    count
}

/// The text of a row: a space for a blank, nothing for the second column of a
/// wide cell.
pub open spec fn row_text(cells: Seq<SnapV>) -> Seq<char>
    decreases cells.len(),
{
    if cells.len() == 0 {
        Seq::empty()
    } else {
        row_text(cells.drop_last()) + cell_text(cells.last())
    }
}

/// The text of a cell.
pub open spec fn cell_text(cell: SnapV) -> Seq<char> {
    if cell.is_wide_continuation {
        Seq::empty()
    } else if cell.text.len() == 0 {
        seq![' ']
    } else {
        cell.text
    }
}

/// The text without the spaces at its end.
pub open spec fn trimmed(text: Seq<char>) -> Seq<char>
    decreases text.len(),
{
    if text.len() > 0 && text.last() == ' ' {
        trimmed(text.drop_last())
    } else {
        text
    }
}

/// The text of rows, one per line.
pub open spec fn snapshot_text(rows: Seq<Seq<SnapV>>) -> Seq<char>
    decreases rows.len(),
{
    if rows.len() == 0 {
        Seq::empty()
    } else if rows.len() == 1 {
        trimmed(row_text(rows.last()))
    } else {
        snapshot_text(rows.drop_last()) + "\n"@ + trimmed(row_text(rows.last()))
    }
}

fn append_row_text(out: &mut String, cells: &[SnapCell])
    ensures
        final(out)@ == old(out)@ + trimmed(row_text(snaps_view(cells@))),
{
    let ghost all = snaps_view(cells@);
    let mut line = String::new();
    let mut i: usize = 0;
    assert(all.take(0) =~= Seq::empty());
    assert(line@ =~= Seq::empty());
    proof {
        reveal_strlit(" ");
        assert(" "@ =~= seq![' ']);
    }
    while i < cells.len()
        invariant
            i <= cells@.len(),
            all == snaps_view(cells@),
            line@ == row_text(all.take(i as int)),
            " "@ == seq![' '],
        decreases cells@.len() - i,
    {
        proof {
            assert(all.take(i + 1).drop_last() =~= all.take(i as int));
            assert(all.take(i + 1).last() == cells@[i as int]@);
        }
        let cell = &cells[i];
        let ghost before = line@;
        if !cell.is_wide_continuation {
            if cell.is_blank() {
                line.append(" ");
            } else {
                line.append(cell.text.as_str());
            }
        }
        assert(line@ =~= before + cell_text(cell@));
        i = i + 1;
    }
    assert(all.take(i as int) =~= all);
    let text = line.as_str();
    let mut n: usize = text.unicode_len();
    assert(text@.take(n as int) =~= text@);
    while n > 0 && text.get_char(n - 1) == ' '
        invariant
            n <= text@.len(),
            trimmed(text@.take(n as int)) == trimmed(text@),
        decreases n,
    {
        proof {
            assert(text@.take(n as int).last() == text@[n - 1]);
            assert(text@.take(n as int).drop_last() =~= text@.take(n - 1));
        }
        n = n - 1;
    }
    proof {
        if n > 0 {
            assert(text@.take(n as int).last() == text@[n - 1]);
        }
        assert(text@.subrange(0, n as int) =~= text@.take(n as int));
    }
    out.append(text.substring_char(0, n));
}

// ── Scrollback views ────────────────────────────────────────────────────────

/// The number of scrollback rows above the live ones in a view.
pub open spec fn view_prefix(g: GridV, offset: int, viewport: int) -> int {
    if offset == 0 || g.scrollback.len() == 0 || viewport == 0 {
        0
    } else {
        least(least(viewport, g.rows), least(offset, g.scrollback.len() as int))
    }
}

/// The number of rows of a view.
pub open spec fn view_height(g: GridV, offset: int, viewport: int) -> int {
    if offset == 0 || g.scrollback.len() == 0 || viewport == 0 {
        g.rows
    } else {
        least(viewport, g.rows)
    }
}

/// The rows of a view: scrolled up by `offset` lines, the scrollback rows from
/// there on, and then the live rows, as many as the view has room for. With no
/// offset, or nothing scrolled away, the live screen.
pub open spec fn view_rows(g: GridV, offset: int, viewport: int) -> Seq<RowV> {
    let prefix = view_prefix(g, offset, viewport);
    let start = g.scrollback.len() - least(offset, g.scrollback.len() as int);
    g.scrollback.subrange(start, start + prefix) + g.screen.take(
        view_height(g, offset, viewport) - prefix,
    )
}

/// What a [`GridView`] shows.
#[verifier::ext_equal]
pub struct ViewV {
    pub rows: Seq<RowV>,
    pub height: int,
    pub cols: int,
    pub cursor: (int, int),
    pub alt: bool,
}

/// A borrowed view of a grid: the live screen, or scrollback rows above it.
pub struct GridView<'a> {
    /// Number of rows.
    pub rows: u16,
    /// Number of columns.
    pub cols: u16,
    /// Cursor position `(row, col)`.
    pub cursor: (u16, u16),
    /// Whether the alternate screen is shown.
    pub alternate_screen: bool,
    screen: &'a Vec<Row>,
    scrollback: &'a VecDeque<Row>,
    start: usize,
    prefix: usize,
}

impl<'a> View for GridView<'a> {
    type V = ViewV;

    closed spec fn view(&self) -> ViewV {
        ViewV {
            rows: rows_view(self.scrollback@).subrange(
                self.start as int,
                self.start + self.prefix,
            ) + rows_view(self.screen@).take(self.rows - self.prefix),
            height: self.rows as int,
            cols: self.cols as int,
            cursor: (self.cursor.0 as int, self.cursor.1 as int),
            alt: self.alternate_screen,
        }
    }
}

impl<'a> GridView<'a> {
    /// The view's invariant: its rows are there.
    pub closed spec fn wf(self) -> bool {
        &&& self.prefix <= self.rows
        &&& self.start + self.prefix <= self.scrollback@.len()
        &&& self.start + self.prefix <= usize::MAX
        &&& self.rows - self.prefix <= self.screen@.len()
    }

    /// Number of rows.
    pub fn rows(&self) -> (r: u16)
        ensures
            r == self@.height,
    {
        self.rows
    }

    /// Number of columns.
    pub fn cols(&self) -> (r: u16)
        ensures
            r == self@.cols,
    {
        self.cols
    }

    /// Cursor position `(row, col)`.
    pub fn cursor(&self) -> (r: (u16, u16))
        ensures
            r.0 == self@.cursor.0,
            r.1 == self@.cursor.1,
    {
        self.cursor
    }

    /// Whether the alternate screen is shown.
    pub fn alternate_screen(&self) -> (r: bool)
        ensures
            r == self@.alt,
    {
        self.alternate_screen
    }

    fn row(&self, row: u16) -> (r: &Row)
        requires
            self.wf(),
            row < self.rows,
        ensures
            r@ == self@.rows[row as int],
            self@.rows.len() == self.rows,
    {
        let row: usize = row as usize;
        if row < self.prefix {
            assert(self@.rows[row as int] == self.scrollback@[self.start + row]@);
            &self.scrollback[self.start + row]
        } else {
            assert(self@.rows[row as int] == self.screen@[row - self.prefix]@);
            &self.screen[row - self.prefix]
        }
    }

    /// The cell at a position of the view, if there is one.
    pub fn cell(&self, row: u16, col: u16) -> (r: Option<&Cell>)
        requires
            self.wf(),
        ensures
            match r {
                Some(cell) => row < self@.height && col < self@.rows[row as int].cells.len()
                    && cell@ == self@.rows[row as int].cells[col as int],
                None => row >= self@.height || col >= self@.rows[row as int].cells.len(),
            },
    {
        if row >= self.rows {
            return None;
        }
        let line = self.row(row);
        if (col as usize) < line.cells.len() {
            Some(&line.cells[col as usize])
        } else {
            None
        }
    }

    /// How a row of the view continues the one above it.
    pub fn row_wrap(&self, row: u16) -> (r: Option<RowWrap>)
        requires
            self.wf(),
        ensures
            r == if row < self@.height {
                Some(self@.rows[row as int].wrap)
            } else {
                None
            },
    {
        if row < self.rows {
            Some(self.row(row).wrap)
        } else {
            None
        }
    }
}

fn min_usize(a: usize, b: usize) -> (r: usize)
    ensures
        r == least(a as int, b as int),
{
    if a < b {
        a
    } else {
        b
    }
}

impl DamageGrid {
    /// Borrow a scrollback VIEW without allocating row snapshots.
    ///
    /// The row layout matches [`DamageGrid::dump_scrollback_view`]: with
    /// `offset == 0` this is the live screen, otherwise the top prefix is taken
    /// from scrollback and the remaining rows are live screen rows.
    #[must_use]
    pub fn scrollback_view(&self, offset: usize, viewport_rows: u16) -> (r: GridView<'_>)
        requires
            self.wf(),
        ensures
            r.wf(),
            r@ == (ViewV {
                rows: view_rows(self@, offset as int, viewport_rows as int),
                height: view_height(self@, offset as int, viewport_rows as int),
                cols: self@.cols,
                cursor: (self@.row, self@.col),
                alt: self@.alt,
            }),
    {
        let len: usize = self.scrollback.len();
        let live = offset == 0 || len == 0 || viewport_rows == 0;
        let rows: u16 = if live || viewport_rows > self.rows {
            self.rows
        } else {
            viewport_rows
        };
        let back: usize = min_usize(offset, len);
        let start: usize = len - back;
        let prefix: usize = if live {
            0
        } else {
            min_usize(rows as usize, back)
        };
        let r = GridView {
            rows,
            cols: self.cols,
            cursor: (self.cursor_row, self.cursor_col),
            alternate_screen: self.alt_screen,
            screen: &self.screen,
            scrollback: &self.scrollback,
            start,
            prefix,
        };
        assert(r@.rows =~= view_rows(self@, offset as int, viewport_rows as int));
        r
    }

    /// Dump a scrollback VIEW as a [`GridSnapshot`]: the scrollback rows at
    /// `offset` as a top prefix, then the live screen rows filling the rest of
    /// the `viewport_rows`. `offset == 0` (or empty scrollback) returns the
    /// live `dump()`.
    #[must_use]
    pub fn dump_scrollback_view(&self, offset: usize, viewport_rows: u16) -> (r: GridSnapshot)
        requires
            self.wf(),
        ensures
            r.shows(
                self@,
                view_rows(self@, offset as int, viewport_rows as int),
                view_height(self@, offset as int, viewport_rows as int),
            ),
    {
        let view = self.scrollback_view(offset, viewport_rows);
        let ghost rows = view@.rows;
        let mut cells: Vec<Vec<SnapCell>> = Vec::new();
        let mut row_wraps: Vec<RowWrap> = Vec::new();
        let mut i: u16 = 0;
        while i < view.rows
            invariant
                i <= view.rows,
                view.wf(),
                rows == view@.rows,
                cells@.len() == i,
                row_wraps@.len() == i,
                forall|j: int|
                    0 <= j < i ==> snaps_view((#[trigger] cells@[j])@) == snap_row(rows[j].cells),
                forall|j: int| 0 <= j < i ==> #[trigger] row_wraps@[j] == rows[j].wrap,
            decreases view.rows - i,
        {
            let row = view.row(i);
            cells.push(copy_row(row.cells.as_slice()));
            row_wraps.push(row.wrap);
            i = i + 1;
        }
        proof {
            lemma_view_len(self@, offset as int, viewport_rows as int);
            assert(snap_rows_view(cells@) =~= snap_rows(rows));
            assert(row_wraps@ =~= wraps_of(rows));
        }
        GridSnapshot {
            rows: view.rows,
            cols: view.cols,
            cursor: view.cursor,
            alternate_screen: view.alternate_screen,
            cells,
            row_wraps,
        }
    }

    /// Dump the current screen state as a [`GridSnapshot`]: a complete, owned
    /// copy of the shown screen, plus cursor position and screen-mode flags.
    pub fn dump(&self) -> (r: GridSnapshot)
        requires
            self.wf(),
        ensures
            r.shows(self@, self@.screen, self@.rows),
    {
        proof {
            lemma_live_view(self@, self@.rows);
        }
        self.dump_scrollback_view(0, self.rows)
    }

    /// Return scrollback rows starting at `offset` lines from the live tail.
    ///
    /// When `offset > 0` the operator has scrolled up `offset` lines into
    /// history; these are up to `max_rows` rows from there on, newest first
    /// (index 0 = closest to the live tail).
    ///
    /// Empty when `offset == 0` (live view) or when the scrollback buffer is
    /// empty. Clamps `offset` to the actual scrollback length.
    #[must_use]
    pub fn scrollback_rows_at_offset(&self, offset: usize, max_rows: usize) -> (r: Vec<&[Cell]>)
        requires
            self.wf(),
        ensures
            ({
                let n = least(
                    least(offset as int, self@.scrollback.len() as int),
                    max_rows as int,
                );
                let start = self@.scrollback.len() - least(
                    offset as int,
                    self@.scrollback.len() as int,
                );
                &&& r@.len() == n
                &&& forall|i: int|
                    0 <= i < n ==> cells_view((#[trigger] r@[i])@) == self@.scrollback[start + n - 1
                        - i].cells
            }),
    {
        let len: usize = self.scrollback.len();
        let back: usize = min_usize(offset, len);
        let start: usize = len - back;
        let n: usize = min_usize(back, max_rows);
        let mut r: Vec<&[Cell]> = Vec::new();
        let mut i: usize = 0;
        while i < n
            invariant
                i <= n,
                start + n <= len == self.scrollback@.len(),
                r@.len() == i,
                forall|j: int|
                    0 <= j < i ==> cells_view((#[trigger] r@[j])@) == self@.scrollback[start + n - 1
                        - j].cells,
            decreases n - i,
        {
            assert(self.scrollback@[start + n - 1 - i]@ == self@.scrollback[start + n - 1 - i]);
            r.push(self.scrollback[start + n - 1 - i].cells.as_slice());
            i = i + 1;
        }
        r
    }

    /// Drain dirty spans and borrow only the rows that changed.
    pub fn dump_dirty_patch(&mut self) -> (r: GridPatch<'_>)
        requires
            old(self).wf(),
        ensures
            r.wf(),
            r@ == (PatchV {
                rows: old(self)@.screen,
                height: old(self)@.rows,
                cols: old(self)@.cols,
                spans: patch_spans(
                    old(self)@.dirty,
                    old(self)@.rows,
                    old(self)@.cols,
                ),
                cursor: (old(self)@.row, old(self)@.col),
                alt: old(self)@.alt,
            }),
            final(self).wf(),
            final(self)@ == (GridV { dirty: crate::damage::clean(), ..old(self)@ }),
            final(self).fed() == old(self).fed(),
            final(self).held() == old(self).held(),
    {
        let dirty = self.dirty_spans();
        self.dirty_patch_from(dirty)
    }

    /// Build a borrowed dirty patch from a previously drained dirty-span set.
    pub fn dirty_patch_from(&self, dirty: DirtySpans) -> (r: GridPatch<'_>)
        requires
            self.wf(),
            dirty.wf(),
        ensures
            r.wf(),
            r@ == (PatchV {
                rows: self@.screen,
                height: self@.rows,
                cols: self@.cols,
                spans: patch_spans(dirty@, self@.rows, self@.cols),
                cursor: (self@.row, self@.col),
                alt: self@.alt,
            }),
    {
        let mut spans: Vec<DirtySpan> = Vec::new();
        match &dirty {
            DirtySpans::All => {
                let mut row: u16 = 0;
                while row < self.rows
                    invariant
                        row <= self.rows,
                        spans@.len() == row,
                        forall|j: int|
                            0 <= j < row ==> #[trigger] spans@[j] == (DirtySpan {
                                row: j as u16,
                                start_col: 0,
                                end_col: self.cols,
                            }),
                    decreases self.rows - row,
                {
                    spans.push(DirtySpan { row, start_col: 0, end_col: self.cols });
                    row = row + 1;
                }
                assert(spans@ =~= patch_spans(dirty@, self@.rows, self@.cols));
            },
            DirtySpans::Rows(rows) => {
                let listed = rows.as_slice();
                let ghost all = listed@;
                let mut i: usize = 0;
                assert(all.take(0) =~= Seq::empty());
                while i < listed.len()
                    invariant
                        i <= listed@.len(),
                        all == listed@,
                        spans@ == spans_within(all.take(i as int), self@.rows, self@.cols),
                    decreases listed@.len() - i,
                {
                    proof {
                        assert(all.take(i + 1).drop_last() =~= all.take(i as int));
                        assert(all.take(i + 1).last() == all[i as int]);
                    }
                    let span = listed[i];
                    let end: u16 = if span.end_col > self.cols {
                        self.cols
                    } else {
                        span.end_col
                    };
                    if span.row < self.rows && span.start_col < end {
                        spans.push(
                            DirtySpan { row: span.row, start_col: span.start_col, end_col: end },
                        );
                    }
                    i = i + 1;
                }
                assert(all.take(i as int) =~= all);
            },
        }
        proof {
            if let DirtySpans::Rows(rows) = dirty {
                rows.lemma_wf();
            }
            patch_spans_fit(dirty@, self@.rows, self@.cols);
            assert forall|i: int| 0 <= i < self.rows implies (
            #[trigger] self.screen@[i]).cells@.len() == self.cols by {
                assert(self@.screen[i] == self.screen@[i]@);
            }
        }
        GridPatch {
            rows: self.rows,
            cols: self.cols,
            cursor: (self.cursor_row, self.cursor_col),
            alternate_screen: self.alt_screen,
            screen: &self.screen,
            spans,
        }
    }
}

/// A view has as many rows as its height says.
pub proof fn lemma_view_len(g: GridV, offset: int, viewport: int)
    requires
        grid_wf(g),
        offset >= 0,
        viewport >= 0,
    ensures
        view_rows(g, offset, viewport).len() == view_height(g, offset, viewport),
{
}

/// Without an offset a view is the live screen.
pub proof fn lemma_live_view(g: GridV, viewport: int)
    requires
        grid_wf(g),
    ensures
        view_rows(g, 0, viewport) == g.screen,
        view_height(g, 0, viewport) == g.rows,
{
    assert(view_rows(g, 0, viewport) =~= g.screen);
}

// ── Dirty patches ───────────────────────────────────────────────────────────

/// The spans that lie within a screen, cut at its last column.
pub open spec fn spans_within(spans: Seq<DirtySpan>, rows: int, cols: int) -> Seq<DirtySpan>
    decreases spans.len(),
{
    if spans.len() == 0 {
        Seq::empty()
    } else {
        let rest = spans_within(spans.drop_last(), rows, cols);
        let span = spans.last();
        let end = least(span.end_col as int, cols);
        if span.row < rows && span.start_col < end {
            rest.push(
                DirtySpan { row: span.row, start_col: span.start_col, end_col: end as u16 },
            )
        } else {
            rest
        }
    }
}

/// The spans that a record of dirty rows stands for on a screen.
pub open spec fn patch_spans(dirty: DirtyV, rows: int, cols: int) -> Seq<DirtySpan> {
    if dirty.all {
        Seq::new(
            rows as nat,
            |i: int| DirtySpan { row: i as u16, start_col: 0, end_col: cols as u16 },
        )
    } else {
        spans_within(dirty.spans, rows, cols)
    }
}

/// Whether one of the spans holds the cell at `row`, `col`.
pub open spec fn spans_hold(spans: Seq<DirtySpan>, row: int, col: int) -> bool {
    exists|i: int|
        0 <= i < spans.len() && (#[trigger] spans[i]).row == row && spans[i].start_col <= col
            < spans[i].end_col
}

proof fn spans_within_hold(spans: Seq<DirtySpan>, rows: int, cols: int, row: int, col: int)
    requires
        cols <= u16::MAX,
        0 <= row < rows,
        0 <= col < cols,
        spans_hold(spans, row, col),
    ensures
        spans_hold(spans_within(spans, rows, cols), row, col),
    decreases spans.len(),
{
    let i = choose|i: int|
        0 <= i < spans.len() && (#[trigger] spans[i]).row == row && spans[i].start_col <= col
            < spans[i].end_col;
    let rest = spans.drop_last();
    let kept = spans_within(rest, rows, cols);
    let all = spans_within(spans, rows, cols);
    if i < rest.len() {
        assert(rest[i] == spans[i]);
        spans_within_hold(rest, rows, cols, row, col);
        let k = choose|k: int|
            0 <= k < kept.len() && (#[trigger] kept[k]).row == row && kept[k].start_col <= col
                < kept[k].end_col;
        assert(all[k] == kept[k]);
    } else {
        assert(all[kept.len() as int].row == row);
    }
}

/// A patch leaves no damage out: every cell of the screen that the record
/// covers lies in one of the patch's spans.
pub proof fn patch_holds_damage(dirty: DirtyV, rows: int, cols: int, row: int, col: int)
    requires
        rows <= u16::MAX,
        cols <= u16::MAX,
        0 <= row < rows,
        0 <= col < cols,
        covers(dirty, row, col),
    ensures
        spans_hold(patch_spans(dirty, rows, cols), row, col),
{
    if dirty.all {
        assert(patch_spans(dirty, rows, cols)[row].row == row);
    } else {
        spans_within_hold(dirty.spans, rows, cols, row, col);
    }
}

/// What a patch shows: a screen, and the spans of it that changed.
#[verifier::ext_equal]
pub struct PatchV {
    pub rows: Seq<RowV>,
    pub height: int,
    pub cols: int,
    pub spans: Seq<DirtySpan>,
    pub cursor: (int, int),
    pub alt: bool,
}

/// Whether a span lies within a screen.
pub open spec fn span_fits(span: DirtySpan, rows: int, cols: int) -> bool {
    span.row < rows && span.start_col < span.end_col <= cols
}

proof fn spans_within_fit(spans: Seq<DirtySpan>, rows: int, cols: int)
    requires
        cols <= u16::MAX,
    ensures
        forall|i: int|
            0 <= i < spans_within(spans, rows, cols).len() ==> span_fits(
                #[trigger] spans_within(spans, rows, cols)[i],
                rows,
                cols,
            ),
        spans_within(spans, rows, cols).len() <= spans.len(),
    decreases spans.len(),
{
    if spans.len() > 0 {
        spans_within_fit(spans.drop_last(), rows, cols);
    }
}

proof fn patch_spans_fit(dirty: DirtyV, rows: int, cols: int)
    requires
        1 <= rows <= u16::MAX,
        1 <= cols <= u16::MAX,
        dirty.spans.len() <= crate::damage::MAX_TRACKED_DIRTY_ROWS,
    ensures
        forall|i: int|
            0 <= i < patch_spans(dirty, rows, cols).len() ==> span_fits(
                #[trigger] patch_spans(dirty, rows, cols)[i],
                rows,
                cols,
            ),
        patch_spans(dirty, rows, cols).len() <= u16::MAX,
{
    if !dirty.all {
        spans_within_fit(dirty.spans, rows, cols);
    }
}

/// A borrowed patch: the spans of a screen that changed.
pub struct GridPatch<'a> {
    /// Number of rows of the screen.
    pub rows: u16,
    /// Number of columns of the screen.
    pub cols: u16,
    /// Cursor position `(row, col)`.
    pub cursor: (u16, u16),
    /// Whether the alternate screen is shown.
    pub alternate_screen: bool,
    screen: &'a Vec<Row>,
    spans: Vec<DirtySpan>,
}

impl<'a> View for GridPatch<'a> {
    type V = PatchV;

    closed spec fn view(&self) -> PatchV {
        PatchV {
            rows: rows_view(self.screen@),
            height: self.rows as int,
            cols: self.cols as int,
            spans: self.spans@,
            cursor: (self.cursor.0 as int, self.cursor.1 as int),
            alt: self.alternate_screen,
        }
    }
}

/// The number of cells in spans.
pub open spec fn span_cells(spans: Seq<DirtySpan>) -> int
    decreases spans.len(),
{
    if spans.len() == 0 {
        0
    } else {
        span_cells(spans.drop_last()) + (spans.last().end_col - spans.last().start_col)
    }
}

impl<'a> GridPatch<'a> {
    /// The patch's invariant: its spans lie within the screen.
    pub closed spec fn wf(self) -> bool {
        &&& self.screen@.len() == self.rows
        &&& forall|i: int|
            0 <= i < self.rows ==> (#[trigger] self.screen@[i]).cells@.len() == self.cols
        &&& self.spans@.len() <= u16::MAX
        &&& forall|i: int|
            0 <= i < self.spans@.len() ==> span_fits(
                #[trigger] self.spans@[i],
                self.rows as int,
                self.cols as int,
            )
    }

    /// Number of rows of the screen.
    pub fn rows(&self) -> (r: u16)
        ensures
            r == self@.height,
    {
        self.rows
    }

    /// Number of columns of the screen.
    pub fn cols(&self) -> (r: u16)
        ensures
            r == self@.cols,
    {
        self.cols
    }

    /// Cursor position `(row, col)`.
    pub fn cursor(&self) -> (r: (u16, u16))
        ensures
            r.0 == self@.cursor.0,
            r.1 == self@.cursor.1,
    {
        self.cursor
    }

    /// Whether the alternate screen is shown.
    pub fn alternate_screen(&self) -> (r: bool)
        ensures
            r == self@.alt,
    {
        self.alternate_screen
    }

    /// True when nothing changed.
    pub fn is_empty(&self) -> (r: bool)
        ensures
            r == (self@.spans.len() == 0),
    {
        self.spans.len() == 0
    }

    /// The number of rows that changed.
    pub fn changed_row_count(&self) -> (r: usize)
        ensures
            r == self@.spans.len(),
    {
        self.spans.len()
    }

    /// The number of cells in the changed spans.
    pub fn changed_cell_count(&self) -> (r: usize)
        requires
            self.wf(),
        ensures
            r == span_cells(self@.spans),
    {
        let mut count: usize = 0;
        let mut i: usize = 0;
        assert(self.spans@.take(0) =~= Seq::empty());
        while i < self.spans.len()
            invariant
                i <= self.spans@.len() <= u16::MAX,
                self.wf(),
                count == span_cells(self.spans@.take(i as int)),
                count <= i * 0xffff,
            decreases self.spans@.len() - i,
        {
            proof {
                assert(self.spans@.take(i + 1).drop_last() =~= self.spans@.take(i as int));
                assert(self.spans@.take(i + 1).last() == self.spans@[i as int]);
                assert(i * 0xffff + 0xffff == (i + 1) * 0xffff) by (nonlinear_arith);
                assert((i + 1) * 0xffff <= 0xffff * 0xffff) by (nonlinear_arith)
                    requires
                        i + 1 <= 0xffff,
                ;
            }
            let span = self.spans[i];
            count = count + (span.end_col - span.start_col) as usize;
            i = i + 1;
        }
        assert(self.spans@.take(i as int) =~= self.spans@);
        count
    }

    /// The rows that changed, with all their cells.
    pub fn changed_rows(&self) -> (r: Vec<(u16, &[Cell])>)
        requires
            self.wf(),
        ensures
            r@.len() == self@.spans.len(),
            forall|i: int|
                0 <= i < r@.len() ==> {
                    &&& (#[trigger] r@[i]).0 == self@.spans[i].row
                    &&& cells_view(r@[i].1@) == self@.rows[self@.spans[i].row as int].cells
                },
    {
        let mut r: Vec<(u16, &[Cell])> = Vec::new();
        let mut i: usize = 0;
        while i < self.spans.len()
            invariant
                i <= self.spans@.len(),
                self.wf(),
                r@.len() == i,
                forall|j: int|
                    0 <= j < i ==> {
                        &&& (#[trigger] r@[j]).0 == self@.spans[j].row
                        &&& cells_view(r@[j].1@) == self@.rows[self@.spans[j].row as int].cells
                    },
            decreases self.spans@.len() - i,
        {
            let row: u16 = self.spans[i].row;
            assert(span_fits(self.spans@[i as int], self.rows as int, self.cols as int));
            assert(self.screen@[row as int]@ == self@.rows[row as int]);
            r.push((row, self.screen[row as usize].cells.as_slice()));
            i = i + 1;
        }
        r
    }

    /// The spans that changed: row, first column, and the cells from there on.
    pub fn changed_spans(&self) -> (r: Vec<(u16, u16, &[Cell])>)
        requires
            self.wf(),
        ensures
            r@.len() == self@.spans.len(),
            forall|i: int|
                0 <= i < r@.len() ==> {
                    let span = self@.spans[i];
                    &&& (#[trigger] r@[i]).0 == span.row
                    &&& r@[i].1 == span.start_col
                    &&& cells_view(r@[i].2@) == self@.rows[span.row as int].cells.subrange(
                        span.start_col as int,
                        span.end_col as int,
                    )
                },
    {
        let mut r: Vec<(u16, u16, &[Cell])> = Vec::new();
        let mut i: usize = 0;
        while i < self.spans.len()
            invariant
                i <= self.spans@.len(),
                self.wf(),
                r@.len() == i,
                forall|j: int|
                    0 <= j < i ==> {
                        let span = self@.spans[j];
                        &&& (#[trigger] r@[j]).0 == span.row
                        &&& r@[j].1 == span.start_col
                        &&& cells_view(r@[j].2@) == self@.rows[span.row as int].cells.subrange(
                            span.start_col as int,
                            span.end_col as int,
                        )
                    },
            decreases self.spans@.len() - i,
        {
            let span = self.spans[i];
            assert(span_fits(self.spans@[i as int], self.rows as int, self.cols as int));
            assert(self.screen@[span.row as int]@ == self@.rows[span.row as int]);
            let cells = vstd::slice::slice_subrange(
                self.screen[span.row as usize].cells.as_slice(),
                span.start_col as usize,
                span.end_col as usize,
            );
            assert(cells_view(cells@) =~= self@.rows[span.row as int].cells.subrange(
                span.start_col as int,
                span.end_col as int,
            ));
            r.push((span.row, span.start_col, cells));
            i = i + 1;
        }
        r
    }
}

} // verus!
