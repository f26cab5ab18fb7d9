//! What a reader of a grid sees: text, snapshots, views of the scrollback, and
//! the record of what changed.

use crate::cell::UnderlineStyle;
use crate::damage::{
    covers, dirty_wf, has_row, marked, marked_rows, marking_rows_covers, DirtySpan, DirtyV,
};
use crate::editing::asks;
use crate::model::{cell_fits, RowV};
use crate::printing::belongs;
use crate::snapshot::{
    patch_spans, row_text, snapshot_text, span_cells, spans_hold, spans_within, texts_in_row,
    texts_in_rows, trimmed, view_height, view_rows, GridSnapshot, SnapV,
};
use crate::state::{apply, csi_edit, grid_wf, EventV, GridV};
use crate::width::char_columns;
use vstd::prelude::*;

verus! {

// ── Text ────────────────────────────────────────────────────────────────────

/// The text of two stretches of a row is the text of the first and then that of
/// the second.
pub proof fn row_text_of_parts(a: Seq<SnapV>, b: Seq<SnapV>)
    ensures
        row_text(a + b) == row_text(a) + row_text(b),
    decreases b.len(),
{
    if b.len() == 0 {
        assert(a + b =~= a);
        assert(row_text(a) + row_text(b) =~= row_text(a));
    } else {
        row_text_of_parts(a, b.drop_last());
        assert((a + b).drop_last() =~= a + b.drop_last());
        assert((a + b).last() == b.last());
        assert(row_text(a) + row_text(b.drop_last()) + crate::snapshot::cell_text(b.last())
            =~= row_text(a) + row_text(b));
    }
}

/// One cell stands in the text as what it holds, as a space where it is blank,
/// and as nothing where it is the second column of a wide cell.
pub proof fn row_text_of_cell(cell: SnapV)
    ensures
        cell.is_wide_continuation ==> row_text(seq![cell]) == Seq::<char>::empty(),
        !cell.is_wide_continuation && cell.text.len() == 0 ==> row_text(seq![cell]) == seq![' '],
        !cell.is_wide_continuation && cell.text.len() > 0 ==> row_text(seq![cell]) == cell.text,
{
    reveal_with_fuel(row_text, 2);
    assert(seq![cell].drop_last() =~= Seq::empty());
    assert(seq![cell].last() == cell);
    let none = Seq::<char>::empty();
    assert(none + crate::snapshot::cell_text(cell) =~= crate::snapshot::cell_text(cell));
}

/// A cell's text stands behind the text of the columns before it.
pub proof fn cell_stands_in_its_place(cells: Seq<SnapV>, c: int)
    requires
        0 <= c < cells.len(),
        !cells[c].is_wide_continuation,
    ensures
        ({
            let before = row_text(cells.take(c)).len() as int;
            let own: Seq<char> = if cells[c].text.len() == 0 {
                seq![' ']
            } else {
                cells[c].text
            };
            &&& before + own.len() <= row_text(cells).len()
            &&& row_text(cells).subrange(before, before + own.len()) == own
        }),
{
    let head = cells.take(c);
    let one = seq![cells[c]];
    let tail = cells.skip(c + 1);
    assert(cells =~= (head + one) + tail);
    row_text_of_parts(head + one, tail);
    row_text_of_parts(head, one);
    row_text_of_cell(cells[c]);
    let before = row_text(head).len() as int;
    assert(row_text(cells).subrange(before, before + row_text(one).len()) =~= row_text(one));
}

/// The character that a narrow cell shows: a space where it is blank.
pub open spec fn shown(cell: SnapV) -> char {
    if cell.text.len() == 0 {
        ' '
    } else {
        cell.text[0]
    }
}

/// Whether a row has narrow cells of at most one character only.
pub open spec fn all_narrow(cells: Seq<SnapV>) -> bool {
    forall|c: int|
        0 <= c < cells.len() ==> !(#[trigger] cells[c]).is_wide_continuation && cells[c].text.len()
            <= 1
}

proof fn narrow_row_text(cells: Seq<SnapV>)
    requires
        all_narrow(cells),
    ensures
        row_text(cells).len() == cells.len(),
        forall|c: int| 0 <= c < cells.len() ==> #[trigger] row_text(cells)[c] == shown(cells[c]),
    decreases cells.len(),
{
    if cells.len() > 0 {
        let head = cells.drop_last();
        assert forall|c: int| 0 <= c < head.len() implies !(#[trigger] head[c]).is_wide_continuation
            && head[c].text.len() <= 1 by {
            assert(head[c] == cells[c]);
        }
        narrow_row_text(head);
        assert forall|c: int| 0 <= c < cells.len() implies #[trigger] row_text(cells)[c] == shown(
            cells[c],
        ) by {
            if c < head.len() {
                assert(head[c] == cells[c]);
                assert(row_text(head)[c] == shown(head[c]));
            }
        }
    }
}

/// Trimming leaves out spaces at the end and nothing else.
pub proof fn trimming_drops_spaces_at_the_end(text: Seq<char>)
    ensures
        ({
            let line = trimmed(text);
            &&& line.len() <= text.len()
            &&& line == text.take(line.len() as int)
            &&& forall|i: int| line.len() <= i < text.len() ==> #[trigger] text[i] == ' '
            &&& line.len() > 0 ==> line[line.len() - 1] != ' '
        }),
    decreases text.len(),
{
    if text.len() > 0 && text.last() == ' ' {
        let rest = text.drop_last();
        trimming_drops_spaces_at_the_end(rest);
        let line = trimmed(text);
        assert(line =~= text.take(line.len() as int));
        assert forall|i: int| line.len() <= i < text.len() implies #[trigger] text[i] == ' ' by {
            if i < rest.len() {
                assert(rest[i] == text[i]);
            }
        }
    } else {
        assert(text.take(text.len() as int) =~= text);
    }
}

/// In a row of narrow cells the character at index `c` of its line is what column
/// `c` shows, a space for a blank one, for every column up to the last one that
/// shows anything.
pub proof fn columns_line_up(cells: Seq<SnapV>, last: int)
    requires
        all_narrow(cells),
        0 <= last < cells.len(),
        shown(cells[last]) != ' ',
        forall|c: int| last < c < cells.len() ==> shown(#[trigger] cells[c]) == ' ',
    ensures
        trimmed(row_text(cells)).len() == last + 1,
        forall|c: int|
            0 <= c <= last ==> #[trigger] trimmed(row_text(cells))[c] == shown(cells[c]),
{
    narrow_row_text(cells);
    let text = row_text(cells);
    trimming_drops_spaces_at_the_end(text);
    let line = trimmed(text);
    assert(text[last] == shown(cells[last]));
    if line.len() > last + 1 {
        assert(text[line.len() - 1] == shown(cells[line.len() - 1]));
    }
}

/// A row that shows nothing has an empty line.
pub proof fn blank_rows_are_empty_lines(cells: Seq<SnapV>)
    requires
        all_narrow(cells),
        forall|c: int| 0 <= c < cells.len() ==> shown(#[trigger] cells[c]) == ' ',
    ensures
        trimmed(row_text(cells)).len() == 0,
{
    narrow_row_text(cells);
    let text = row_text(cells);
    trimming_drops_spaces_at_the_end(text);
    let line = trimmed(text);
    if line.len() > 0 {
        assert(text[line.len() - 1] == shown(cells[line.len() - 1]));
    }
}

/// The text of a snapshot has one line per row, in order, parted by line feeds.
pub proof fn one_line_per_row(rows: Seq<Seq<SnapV>>, row: Seq<SnapV>)
    ensures
        rows.len() == 0 ==> snapshot_text(rows.push(row)) == trimmed(row_text(row)),
        rows.len() > 0 ==> snapshot_text(rows.push(row)) == snapshot_text(rows).push('\n')
            + trimmed(row_text(row)),
{
    reveal_strlit("\n");
    assert(rows.push(row).drop_last() =~= rows);
    assert("\n"@ =~= seq!['\n']);
    assert(snapshot_text(rows) + "\n"@ =~= snapshot_text(rows).push('\n'));
}

// ── Snapshots ───────────────────────────────────────────────────────────────

/// A snapshot holds, at each position, the text, width, colors, attributes and
/// link of the cell there, and how each row wraps.
pub proof fn snapshot_copies_cells(
    s: GridSnapshot,
    g: GridV,
    rows: Seq<RowV>,
    n: int,
    r: int,
    c: int,
)
    requires
        s.shows(g, rows, n),
        0 <= r < rows.len(),
        0 <= c < rows[r].cells.len(),
    ensures
        s.cells@.len() == rows.len(),
        s.cells@[r]@.len() == rows[r].cells.len(),
        s.row_wraps@.len() == rows.len(),
        s.row_wraps@[r] == rows[r].wrap,
        s.rows == n,
        s.cols == g.cols,
        s.cursor.0 == g.row as u16,
        s.cursor.1 == g.col as u16,
        s.alternate_screen == g.alt,
        ({
            let cell = rows[r].cells[c];
            let copy = s.cells@[r]@[c];
            &&& copy.text@ == cell.contents
            &&& copy.is_wide == cell.is_wide
            &&& copy.is_wide_continuation == cell.is_wide_continuation
            &&& copy.fg == cell.attrs.foreground
            &&& copy.bg == cell.attrs.background
            &&& copy.underline_style == cell.attrs.underline_style
            &&& copy.underline_color == cell.attrs.underline_color
            &&& copy.attributes.bold == cell.attrs.bold
            &&& copy.attributes.italic == cell.attrs.italic
            &&& copy.attributes.underline == (cell.attrs.underline_style != UnderlineStyle::Off)
            &&& copy.attributes.inverse == cell.attrs.inverse
            &&& copy.attributes.dim == cell.attrs.dim
            &&& copy.attributes.strikethrough == cell.attrs.strikethrough
            &&& copy.attributes.slow_blink == cell.attrs.slow_blink
            &&& copy.attributes.rapid_blink == cell.attrs.rapid_blink
            &&& copy.attributes.conceal == cell.attrs.conceal
            &&& copy.attributes.overline == cell.attrs.overline
            &&& match cell.hyperlink {
                None => copy.hyperlink_id is None && copy.hyperlink_uri is None,
                Some(link) => copy.hyperlink_id is Some && copy.hyperlink_id->0@ == link.id
                    && copy.hyperlink_uri is Some && copy.hyperlink_uri->0@ == link.uri,
            }
        }),
{
    let have = crate::snapshot::snap_rows_view(s.cells@);
    let want = crate::snapshot::snap_rows(rows);
    assert(have.len() == want.len());
    assert(have[r] == want[r]);
    assert(have[r].len() == want[r].len());
    assert(have[r][c] == want[r][c]);
    assert(s.cells@[r]@[c]@ == crate::snapshot::snap_of(rows[r].cells[c]));
    assert(crate::snapshot::wraps_of(rows)[r] == rows[r].wrap);
}

/// The count of cells with text: of a row, one for each such cell; of rows, the
/// sum over the rows.
pub proof fn texts_are_counted(
    cells: Seq<SnapV>,
    cell: SnapV,
    rows: Seq<Seq<SnapV>>,
    row: Seq<SnapV>,
)
    ensures
        texts_in_row(Seq::empty()) == 0,
        texts_in_row(cells.push(cell)) == texts_in_row(cells) + if cell.text.len() > 0 {
            1int
        } else {
            0
        },
        texts_in_rows(Seq::empty()) == 0,
        texts_in_rows(rows.push(row)) == texts_in_rows(rows) + texts_in_row(row),
{
    assert(cells.push(cell).drop_last() =~= cells);
    assert(rows.push(row).drop_last() =~= rows);
}

// ── Views ───────────────────────────────────────────────────────────────────

/// A view scrolled up by `offset` lines starts with the row that is `offset` from
/// the newest end of the scrollback; the rows that follow it come next, and below
/// the newest one the live rows from the top on, as many as there is room for.
pub proof fn view_starts_at_offset(g: GridV, offset: int, viewport: int)
    requires
        grid_wf(g),
        1 <= offset <= g.scrollback.len(),
        1 <= viewport,
    ensures
        ({
            let height: int = if viewport < g.rows {
                viewport
            } else {
                g.rows
            };
            let len = g.scrollback.len() as int;
            let rows = view_rows(g, offset, viewport);
            &&& view_height(g, offset, viewport) == height
            &&& rows.len() == height
            &&& rows[0] == g.scrollback[len - offset]
            &&& forall|i: int|
                0 <= i < height && i < offset ==> #[trigger] rows[i] == g.scrollback[len - offset
                    + i]
            &&& forall|i: int|
                offset <= i < height ==> #[trigger] rows[i] == g.screen[i - offset]
        }),
{
}

/// Scrolling one line further up shows one more row of the scrollback on top and
/// moves every other row of the view down by one.
pub proof fn scrolling_up_shifts_the_view(g: GridV, offset: int, viewport: int, i: int)
    requires
        grid_wf(g),
        1 <= offset < g.scrollback.len(),
        1 <= viewport,
        0 <= i,
        i + 1 < view_height(g, offset + 1, viewport),
    ensures
        view_rows(g, offset + 1, viewport)[i + 1] == view_rows(g, offset, viewport)[i],
        view_rows(g, offset + 1, viewport).len() == view_rows(g, offset, viewport).len(),
{
}

/// An offset past the oldest row shows what the oldest row's offset shows; with
/// no offset, no scrollback or no viewport the view is the live screen.
pub proof fn view_offsets_are_clamped(g: GridV, offset: int, viewport: int)
    requires
        grid_wf(g),
        offset >= 0,
        viewport >= 0,
    ensures
        offset > g.scrollback.len() && g.scrollback.len() > 0 ==> view_rows(g, offset, viewport)
            == view_rows(g, g.scrollback.len() as int, viewport),
        offset == 0 || g.scrollback.len() == 0 || viewport == 0 ==> view_rows(g, offset, viewport)
            == g.screen && view_height(g, offset, viewport) == g.rows,
{
    if offset == 0 || g.scrollback.len() == 0 || viewport == 0 {
        assert(view_rows(g, offset, viewport) =~= g.screen);
    }
}

// ── Damage ──────────────────────────────────────────────────────────────────

/// Marking records no more than it must: the marked columns, joined with those
/// recorded on the same row before. Everything is reported only if it was before,
/// or if a new row finds no room among the rows on record.
pub proof fn marking_is_precise(d: DirtyV, row: u16, start: u16, end: u16)
    requires
        dirty_wf(d),
    ensures
        ({
            let m = marked(d, row, start, end);
            &&& start >= end ==> m == d
            &&& m.all ==> d.all || (start < end && d.spans.len() == 64 && !has_row(d.spans, row))
            &&& start < end && !d.all && d.spans.len() == 64 && !has_row(d.spans, row) ==> m.all
            &&& !m.all ==> forall|r: int, c: int|
                #[trigger] covers(m, r, c) ==> covers(d, r, c) || (r == row && (start <= c < end
                    || exists|i: int|
                    0 <= i < d.spans.len() && (#[trigger] d.spans[i]).row == row && (
                    d.spans[i].end_col <= c < start || end <= c < d.spans[i].start_col)))
        }),
{
    let m = marked(d, row, start, end);
    if start < end && !m.all && !d.all {
        assert forall|r: int, c: int| #[trigger] covers(m, r, c) implies covers(d, r, c) || (r
            == row && (start <= c < end || exists|i: int|
            0 <= i < d.spans.len() && (#[trigger] d.spans[i]).row == row && (d.spans[i].end_col <= c
                < start || end <= c < d.spans[i].start_col))) by {
            let k = choose|k: int|
                0 <= k < m.spans.len() && (#[trigger] m.spans[k]).row == r && m.spans[k].start_col
                    <= c < m.spans[k].end_col;
            crate::damage::marked_span(d, row, start, end, k);
        }
    }
}

/// Whether the rows other than `top..=bottom` have no more damage on record than
/// before, unless everything is reported.
pub open spec fn damage_within(d: DirtyV, m: DirtyV, top: int, bottom: int) -> bool {
    m.all || forall|r: int, c: int| #[trigger]
        covers(m, r, c) && (r < top || r > bottom) ==> covers(d, r, c)
}

proof fn marking_within(d: DirtyV, row: u16, start: u16, end: u16)
    requires
        dirty_wf(d),
    ensures
        damage_within(d, marked(d, row, start, end), row as int, row as int),
{
    marking_is_precise(d, row, start, end);
}

proof fn marking_rows_within(d: DirtyV, top: int, bottom: int)
    requires
        dirty_wf(d),
        0 <= top,
        bottom <= u16::MAX,
    ensures
        damage_within(d, marked_rows(d, top, bottom), top, bottom),
    decreases bottom - top + 1,
{
    if top <= bottom {
        marking_rows_within(d, top, bottom - 1);
        let above = marked_rows(d, top, bottom - 1);
        marking_rows_covers(d, top, bottom - 1);
        marking_within(above, bottom as u16, 0, u16::MAX);
        let m = marked_rows(d, top, bottom);
        if !m.all {
            assert(!above.all);
        }
    }
}

/// Printing without a wrap, and the edits of characters, damage the cursor's row
/// alone; scrolling up damages the scroll region alone.
pub proof fn damage_is_local(g: GridV, event: EventV, n: u16)
    requires
        grid_wf(g),
    ensures
        ({
            let h = apply(g, event);
            &&& event is Print && g.col < g.cols ==> damage_within(g.dirty, h.dirty, g.row, g.row)
            &&& asks(event, '@', n) || asks(event, 'P', n) || asks(event, 'X', n) || asks(
                event,
                'K',
                n,
            ) ==> damage_within(g.dirty, h.dirty, g.row, g.row)
            &&& asks(event, 'S', n) ==> damage_within(g.dirty, h.dirty, g.top, g.bottom)
        }),
{
    reveal(csi_edit);
    assert forall|start: u16, end: u16| damage_within(
        g.dirty,
        #[trigger] marked(g.dirty, g.row as u16, start, end),
        g.row,
        g.row,
    ) by {
        marking_within(g.dirty, g.row as u16, start, end);
    }
    marking_rows_within(g.dirty, g.top, g.bottom);
}

/// A narrow character written between narrow cells damages the one cell that it
/// fills.
pub proof fn narrow_prints_damage_one_cell(g: GridV, ch: char)
    requires
        grid_wf(g),
        g.col < g.cols,
        char_columns(ch) == 1,
        !belongs(g, ch),
        !g.screen[g.row].cells[g.col].is_wide_continuation,
        !g.screen[g.row].cells[g.col].is_wide,
    ensures
        apply(g, EventV::Print(ch)).dirty == marked(
            g.dirty,
            g.row as u16,
            g.col as u16,
            (g.col + 1) as u16,
        ),
{
    crate::printing::joins_are_belongings(g, ch);
    let cells = g.screen[g.row].cells;
    assert(cells.len() == g.cols);
    if g.col + 1 < g.cols {
        assert(cell_fits(cells, g.col + 1));
    }
}

/// The cells of spans are counted span by span.
pub proof fn span_cells_are_counted(spans: Seq<DirtySpan>, span: DirtySpan)
    ensures
        span_cells(Seq::empty()) == 0,
        span_cells(spans.push(span)) == span_cells(spans) + (span.end_col - span.start_col),
{
    assert(spans.push(span).drop_last() =~= spans);
}

proof fn within_holds_only(spans: Seq<DirtySpan>, rows: int, cols: int, row: int, col: int)
    requires
        0 <= cols <= u16::MAX,
        spans_hold(spans_within(spans, rows, cols), row, col),
    ensures
        spans_hold(spans, row, col),
        row < rows,
        col < cols,
    decreases spans.len(),
{
    let all = spans_within(spans, rows, cols);
    let rest = spans.drop_last();
    let kept = spans_within(rest, rows, cols);
    let k = choose|k: int|
        0 <= k < all.len() && (#[trigger] all[k]).row == row && all[k].start_col <= col
            < all[k].end_col;
    if k < kept.len() {
        assert(all[k] == kept[k]);
        within_holds_only(rest, rows, cols, row, col);
        let i = choose|i: int|
            0 <= i < rest.len() && (#[trigger] rest[i]).row == row && rest[i].start_col <= col
                < rest[i].end_col;
        assert(spans[i] == rest[i]);
    } else {
        assert(spans[spans.len() - 1].row == row);
    }
}

/// A patch holds damage only: each cell in its spans is on the screen and covered
/// by the record.
pub proof fn patch_holds_only_damage(dirty: DirtyV, rows: int, cols: int, row: int, col: int)
    requires
        0 <= rows <= u16::MAX,
        0 <= cols <= u16::MAX,
        spans_hold(patch_spans(dirty, rows, cols), row, col),
    ensures
        covers(dirty, row, col),
        0 <= row < rows,
        col < cols,
{
    if !dirty.all {
        within_holds_only(dirty.spans, rows, cols, row, col);
    }
}

} // verus!
