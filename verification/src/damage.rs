//! Dirty-span tracking: records mutations at write time so that a renderer
//! can walk only changed column spans instead of diffing the whole grid.
//!
//! A fixed row list carries one merged column span per row. A frame that
//! dirties more distinct rows than the list holds falls back to "everything".

use vstd::prelude::*;

verus! {

/// Frames that dirty more than this many distinct rows fall back to `All`.
pub const MAX_TRACKED_DIRTY_ROWS: usize = 64;

/// One dirty span on a row. `end_col == u16::MAX` means "through grid width".
#[derive(Debug, Clone, Copy, PartialEq, Eq, Structural)]
pub struct DirtySpan {
    /// Zero-based dirty row index.
    pub row: u16,
    /// Inclusive start column of the dirty range.
    pub start_col: u16,
    /// Exclusive end column, or `u16::MAX` for the full row width.
    pub end_col: u16,
}

/// The span that covers a whole row.
pub open spec fn full_row_span(row: u16) -> DirtySpan {
    DirtySpan { row, start_col: 0, end_col: u16::MAX }
}

/// The smallest span that covers both `span` and the columns
/// `start_col..end_col`.
pub open spec fn merged_span(span: DirtySpan, start_col: u16, end_col: u16) -> DirtySpan {
    DirtySpan {
        row: span.row,
        start_col: if start_col < span.start_col {
            start_col
        } else {
            span.start_col
        },
        end_col: if end_col > span.end_col {
            end_col
        } else {
            span.end_col
        },
    }
}

impl DirtySpan {
    /// A span covering the entire row (columns resolved at emit time).
    #[must_use]
    pub fn full_row(row: u16) -> (r: Self)
        ensures
            r == full_row_span(row),
    {
        DirtySpan { row, start_col: 0, end_col: u16::MAX }
    }

    /// True when this span means the whole row is dirty.
    #[must_use]
    pub fn is_full_row(self) -> (r: bool)
        ensures
            r == (self == full_row_span(self.row)),
    {
        self.start_col == 0 && self.end_col == u16::MAX
    }

    fn merge(&mut self, start_col: u16, end_col: u16)
        ensures
            *final(self) == merged_span(*old(self), start_col, end_col),
    {
        if start_col < self.start_col {
            self.start_col = start_col;
        }
        if end_col > self.end_col {
            self.end_col = end_col;
        }
    }
}

/// Spans in ascending row order, at most one per row.
pub open spec fn spans_sorted(spans: Seq<DirtySpan>) -> bool {
    forall|i: int, j: int| 0 <= i < j < spans.len() ==> (#[trigger] spans[i]).row < (
    #[trigger] spans[j]).row
}

/// Spans that each cover at least one column.
pub open spec fn spans_filled(spans: Seq<DirtySpan>) -> bool {
    forall|i: int| 0 <= i < spans.len() ==> (#[trigger] spans[i]).start_col < spans[i].end_col
}

/// The number of spans on rows above `row`: where a span for `row` belongs.
pub open spec fn row_slot(spans: Seq<DirtySpan>, row: u16) -> int
    decreases spans.len(),
{
    if spans.len() == 0 {
        0
    } else if spans.last().row < row {
        spans.len() as int
    } else {
        row_slot(spans.drop_last(), row)
    }
}

/// Whether `spans` holds a span for `row`.
pub open spec fn has_row(spans: Seq<DirtySpan>, row: u16) -> bool {
    exists|i: int| 0 <= i < spans.len() && (#[trigger] spans[i]).row == row
}

proof fn lemma_row_slot(spans: Seq<DirtySpan>, row: u16, at: int)
    requires
        spans_sorted(spans),
        0 <= at <= spans.len(),
        forall|i: int| 0 <= i < at ==> (#[trigger] spans[i]).row < row,
        forall|i: int| at <= i < spans.len() ==> (#[trigger] spans[i]).row >= row,
    ensures
        row_slot(spans, row) == at,
        has_row(spans, row) == (at < spans.len() && spans[at].row == row),
    decreases spans.len(),
{
    if spans.len() > 0 {
        if spans.last().row < row {
            assert(at == spans.len());
        } else {
            assert(at <= spans.len() - 1);
            let shorter = spans.drop_last();
            assert forall|i: int| at <= i < shorter.len() implies (#[trigger] shorter[i]).row
                >= row by {
                assert(shorter[i] == spans[i]);
            }
            lemma_row_slot(shorter, row, at);
        }
    }
    if has_row(spans, row) {
        let i = choose|i: int| 0 <= i < spans.len() && (#[trigger] spans[i]).row == row;
        assert(at <= i);
        if at < i {
            assert(spans[at].row < spans[i].row);
        }
    }
}

/// What a [`DirtyTracker`] has recorded: either everything, or spans.
#[verifier::ext_equal]
pub struct DirtyV {
    /// Whether every row is dirty.
    pub all: bool,
    /// Otherwise the dirty spans, in ascending row order.
    pub spans: Seq<DirtySpan>,
}

/// Nothing recorded.
pub open spec fn clean() -> DirtyV {
    DirtyV { all: false, spans: Seq::empty() }
}

/// Everything recorded.
pub open spec fn all_dirty() -> DirtyV {
    DirtyV { all: true, spans: Seq::empty() }
}

/// The spans with `start_col..end_col` of `row` added.
pub open spec fn spans_with(
    spans: Seq<DirtySpan>,
    row: u16,
    start_col: u16,
    end_col: u16,
) -> Seq<DirtySpan> {
    let at = row_slot(spans, row);
    if has_row(spans, row) {
        spans.update(at, merged_span(spans[at], start_col, end_col))
    } else {
        spans.insert(at, DirtySpan { row, start_col, end_col })
    }
}

/// The record after marking the columns `start_col..end_col` of `row`.
pub open spec fn marked(d: DirtyV, row: u16, start_col: u16, end_col: u16) -> DirtyV {
    if d.all || start_col >= end_col {
        d
    } else if !has_row(d.spans, row) && d.spans.len() >= MAX_TRACKED_DIRTY_ROWS {
        all_dirty()
    } else {
        DirtyV { all: false, spans: spans_with(d.spans, row, start_col, end_col) }
    }
}

/// The record after marking the whole of each row from `top` to `bottom`.
pub open spec fn marked_rows(d: DirtyV, top: int, bottom: int) -> DirtyV
    decreases bottom - top + 1,
{
    if top > bottom {
        d
    } else {
        marked(marked_rows(d, top, bottom - 1), bottom as u16, 0, u16::MAX)
    }
}

/// Whether the record says that the cell at `row`, `col` may have changed.
pub open spec fn covers(d: DirtyV, row: int, col: int) -> bool {
    d.all || exists|i: int|
        0 <= i < d.spans.len() && (#[trigger] d.spans[i]).row == row && d.spans[i].start_col <= col
            < d.spans[i].end_col
}

/// A well-formed record: few enough spans, one per row, in row order, none of
/// them empty.
pub open spec fn dirty_wf(d: DirtyV) -> bool {
    &&& d.spans.len() <= MAX_TRACKED_DIRTY_ROWS
    &&& spans_sorted(d.spans)
    &&& spans_filled(d.spans)
    &&& d.all ==> d.spans.len() == 0
}

proof fn lemma_slot_exists(spans: Seq<DirtySpan>, row: u16)
    requires
        spans_sorted(spans),
    ensures
        0 <= row_slot(spans, row) <= spans.len(),
        forall|i: int| 0 <= i < row_slot(spans, row) ==> (#[trigger] spans[i]).row < row,
        forall|i: int|
            row_slot(spans, row) <= i < spans.len() ==> (#[trigger] spans[i]).row >= row,
        has_row(spans, row) ==> row_slot(spans, row) < spans.len() && spans[row_slot(
            spans,
            row,
        )].row == row,
    decreases spans.len(),
{
    if spans.len() > 0 && spans.last().row >= row {
        let shorter = spans.drop_last();
        lemma_slot_exists(shorter, row);
        let at = row_slot(shorter, row);
        assert(row_slot(spans, row) == at);
        assert forall|i: int| 0 <= i < at implies (#[trigger] spans[i]).row < row by {
            assert(spans[i] == shorter[i]);
        }
        assert forall|i: int| at <= i < spans.len() implies (#[trigger] spans[i]).row >= row by {
            if i < spans.len() - 1 {
                assert(spans[i] == shorter[i]);
            }
        }
    }
    lemma_row_slot(spans, row, row_slot(spans, row));
}

/// Marking keeps a record well-formed, forgets nothing that was recorded
/// before, and records every marked cell.
pub proof fn marking_covers(d: DirtyV, row: u16, start_col: u16, end_col: u16)
    requires
        dirty_wf(d),
    ensures
        dirty_wf(marked(d, row, start_col, end_col)),
        forall|r: int, c: int| #[trigger]
            covers(d, r, c) ==> covers(marked(d, row, start_col, end_col), r, c),
        forall|c: int|
            start_col <= c < end_col ==> #[trigger] covers(
                marked(d, row, start_col, end_col),
                row as int,
                c,
            ),
{
    let m = marked(d, row, start_col, end_col);
    lemma_slot_exists(d.spans, row);
    let at = row_slot(d.spans, row);
    if m != d && !m.all {
        if has_row(d.spans, row) {
            assert forall|r: int, c: int| #[trigger] covers(d, r, c) implies covers(m, r, c) by {
                let i = choose|i: int|
                    0 <= i < d.spans.len() && (#[trigger] d.spans[i]).row == r
                        && d.spans[i].start_col <= c < d.spans[i].end_col;
                assert(m.spans[i].row == r);
            }
            assert(m.spans[at].row == row);
        } else {
            assert forall|r: int, c: int| #[trigger] covers(d, r, c) implies covers(m, r, c) by {
                let i = choose|i: int|
                    0 <= i < d.spans.len() && (#[trigger] d.spans[i]).row == r
                        && d.spans[i].start_col <= c < d.spans[i].end_col;
                let j = if i < at {
                    i
                } else {
                    i + 1
                };
                assert(m.spans[j] == d.spans[i]);
            }
            assert(m.spans[at].row == row);
            assert forall|i: int| 0 <= i < m.spans.len() implies (#[trigger] m.spans[i]).start_col
                < m.spans[i].end_col by {
                if i < at {
                    assert(m.spans[i] == d.spans[i]);
                } else if i > at {
                    assert(m.spans[i] == d.spans[i - 1]);
                }
            }
            assert forall|i: int, j: int| 0 <= i < j < m.spans.len() implies (
            #[trigger] m.spans[i]).row < (#[trigger] m.spans[j]).row by {
                let a = if i < at {
                    i
                } else {
                    i - 1
                };
                let b = if j < at {
                    j
                } else {
                    j - 1
                };
                if i != at {
                    assert(m.spans[i] == d.spans[a]);
                }
                if j != at {
                    assert(m.spans[j] == d.spans[b]);
                }
                if i == at {
                    assert(!has_row(d.spans, row));
                    assert(d.spans[b].row >= row);
                    assert(d.spans[b].row != row);
                }
            }
        }
    }
}

/// Where a span of the record after a mark comes from: it was there before, or it
/// is the mark, joined with what was recorded on that row.
pub(crate) proof fn marked_span(d: DirtyV, row: u16, start_col: u16, end_col: u16, k: int)
    requires
        dirty_wf(d),
        start_col < end_col,
        !d.all,
        !marked(d, row, start_col, end_col).all,
        0 <= k < marked(d, row, start_col, end_col).spans.len(),
    ensures
        ({
            let span = marked(d, row, start_col, end_col).spans[k];
            ||| exists|i: int| 0 <= i < d.spans.len() && #[trigger] d.spans[i] == span
            ||| span == (DirtySpan { row, start_col, end_col })
            ||| exists|i: int|
                {
                    &&& 0 <= i < d.spans.len()
                    &&& (#[trigger] d.spans[i]).row == row
                    &&& span.row == row
                    &&& span.start_col == (if start_col < d.spans[i].start_col {
                        start_col
                    } else {
                        d.spans[i].start_col
                    })
                    &&& span.end_col == (if end_col > d.spans[i].end_col {
                        end_col
                    } else {
                        d.spans[i].end_col
                    })
                }
        }),
{
    lemma_slot_exists(d.spans, row);
    let m = marked(d, row, start_col, end_col);
    let at = row_slot(d.spans, row);
    if has_row(d.spans, row) {
        if k != at {
            assert(m.spans[k] == d.spans[k]);
        } else {
            assert(d.spans[at].row == row);
        }
    } else if k < at {
        assert(m.spans[k] == d.spans[k]);
    } else if k > at {
        assert(m.spans[k] == d.spans[k - 1]);
    }
}

/// Marking whole rows records every column of each of them, forgets nothing,
/// and keeps the record well-formed.
pub proof fn marking_rows_covers(d: DirtyV, top: int, bottom: int)
    requires
        dirty_wf(d),
        0 <= top,
        bottom <= u16::MAX,
    ensures
        dirty_wf(marked_rows(d, top, bottom)),
        forall|r: int, c: int| #[trigger]
            covers(d, r, c) ==> covers(marked_rows(d, top, bottom), r, c),
        forall|r: int, c: int|
            top <= r <= bottom && 0 <= c < u16::MAX ==> #[trigger] covers(
                marked_rows(d, top, bottom),
                r,
                c,
            ),
    decreases bottom - top + 1,
{
    if top <= bottom {
        marking_rows_covers(d, top, bottom - 1);
        let above = marked_rows(d, top, bottom - 1);
        marking_covers(above, bottom as u16, 0, u16::MAX);
        assert forall|r: int, c: int|
            top <= r <= bottom && 0 <= c < u16::MAX implies #[trigger] covers(
            marked_rows(d, top, bottom),
            r,
            c,
        ) by {
            if r < bottom {
                assert(covers(above, r, c));
            } else {
                assert(covers(marked(above, bottom as u16, 0, u16::MAX), bottom as u16 as int, c));
            }
        }
    }
}

/// Fixed-capacity sorted list of dirty row spans (one merged span per row).
#[derive(Debug)]
pub struct DirtyRows {
    rows: [DirtySpan; 64],
    len: usize,
}

impl View for DirtyRows {
    type V = Seq<DirtySpan>;

    closed spec fn view(&self) -> Seq<DirtySpan> {
        self.rows@.take(self.len as int)
    }
}

impl DirtyRows {
    /// The list's invariant: it is in row order and within its capacity, and no
    /// span is empty.
    pub closed spec fn wf(self) -> bool {
        &&& self.len <= 64
        &&& spans_sorted(self@)
        &&& spans_filled(self@)
    }

    /// What the invariant gives of the viewed list.
    pub proof fn lemma_wf(self)
        requires
            self.wf(),
        ensures
            self@.len() <= MAX_TRACKED_DIRTY_ROWS,
            spans_sorted(self@),
            spans_filled(self@),
    {
    }

    /// The place of `row` in the list, and whether it is there.
    fn slot(&self, row: u16) -> (r: (usize, bool))
        requires
            self.wf(),
        ensures
            r.0 == row_slot(self@, row),
            r.1 == has_row(self@, row),
            r.0 <= self@.len(),
            r.1 ==> r.0 < self@.len(),
    {
        let mut low: usize = 0;
        let mut high: usize = self.len;
        while low < high
            invariant
                self.wf(),
                low <= high <= self.len <= 64,
                forall|i: int| 0 <= i < low ==> (#[trigger] self@[i]).row < row,
                forall|i: int| high <= i < self.len ==> (#[trigger] self@[i]).row >= row,
            decreases high - low,
        {
            let mid: usize = low + (high - low) / 2;
            assert(self.rows@[mid as int] == self@[mid as int]);
            if self.rows[mid].row < row {
                assert forall|i: int| 0 <= i < mid + 1 implies (#[trigger] self@[i]).row < row by {
                    if i < mid {
                        assert(self@[i].row < self@[mid as int].row);
                    }
                }
                low = mid + 1;
            } else {
                assert forall|i: int| mid <= i < self.len implies (#[trigger] self@[i]).row
                    >= row by {
                    if mid < i {
                        assert(self@[mid as int].row < self@[i].row);
                    }
                }
                high = mid;
            }
        }
        proof {
            lemma_row_slot(self@, row, low as int);
        }
        if low < self.len {
            assert(self.rows@[low as int] == self@[low as int]);
            (low, self.rows[low].row == row)
        } else {
            (low, false)
        }
    }

    /// Adds a span, merged into the span of its row where there is one.
    /// Fails, leaving the list as it was, where a new row finds the list full.
    fn push_or_merge(&mut self, row: u16, start_col: u16, end_col: u16) -> (r: Result<(), ()>)
        requires
            old(self).wf(),
            start_col < end_col,
        ensures
            final(self).wf(),
            r is Err == (!has_row(old(self)@, row) && old(self)@.len()
                >= MAX_TRACKED_DIRTY_ROWS),
            r is Err ==> final(self)@ == old(self)@,
            r is Ok ==> final(self)@ == spans_with(old(self)@, row, start_col, end_col),
    {
        let ghost before = self@;
        proof {
            lemma_slot_exists(self@, row);
            if has_row(self@, row) || self@.len() < MAX_TRACKED_DIRTY_ROWS {
                let d = DirtyV { all: false, spans: self@ };
                marking_covers(d, row, start_col, end_col);
            }
        }
        let (at, found) = self.slot(row);
        if found {
            let mut span = self.rows[at];
            span.merge(start_col, end_col);
            self.rows[at] = span;
            assert(self@ =~= spans_with(before, row, start_col, end_col));
            return Ok(());
        }
        if self.len == 64 {
            return Err(());
        }
        let mut i: usize = self.len;
        let ghost n = self.len as int;
        while i > at
            invariant
                at <= i <= n < 64,
                self.len == n,
                before.len() == n,
                self.rows@.len() == 64,
                forall|k: int| 0 <= k < i ==> self.rows@[k] == before[k],
                forall|k: int| i < k <= n ==> self.rows@[k] == before[k - 1],
            decreases i,
        {
            self.rows[i] = self.rows[i - 1];
            i = i - 1;
        }
        self.rows[at] = DirtySpan { row, start_col, end_col };
        self.len = self.len + 1;
        assert(self@ =~= spans_with(before, row, start_col, end_col));
        Ok(())
    }

    fn clear(&mut self)
        ensures
            final(self).wf(),
            final(self)@ == Seq::<DirtySpan>::empty(),
    {
        self.len = 0;
        assert(self@ =~= Seq::empty());
    }

    /// True when no rows are tracked.
    pub fn is_empty(&self) -> (r: bool)
        requires
            self.wf(),
        ensures
            r == (self@.len() == 0),
    {
        self.len == 0
    }

    /// Number of tracked dirty rows.
    pub fn len(&self) -> (r: usize)
        requires
            self.wf(),
        ensures
            r == self@.len(),
    {
        self.len
    }

    /// True if `row` has a dirty span.
    pub fn contains(&self, row: u16) -> (r: bool)
        requires
            self.wf(),
        ensures
            r == has_row(self@, row),
    {
        self.slot(row).1
    }

    /// Borrow the sorted span slice.
    pub fn as_slice(&self) -> (r: &[DirtySpan])
        requires
            self.wf(),
        ensures
            r@ == self@,
            spans_sorted(r@),
            spans_filled(r@),
    {
        let all: &[DirtySpan] = &self.rows;
        let r = vstd::slice::slice_subrange(all, 0, self.len);
        assert(r@ =~= self@);
        r
    }

    /// The dirty spans in row order.
    pub fn iter(&self) -> (r: Vec<DirtySpan>)
        requires
            self.wf(),
        ensures
            r@ == self@,
            spans_sorted(r@),
            spans_filled(r@),
    {
        let mut r: Vec<DirtySpan> = Vec::new();
        let mut i: usize = 0;
        while i < self.len
            invariant
                self.wf(),
                i <= self.len <= 64,
                r@ == self@.take(i as int),
            decreases self.len - i,
        {
            r.push(self.rows[i]);
            i = i + 1;
            assert(r@ =~= self@.take(i as int));
        }
        assert(r@ =~= self@);
        r
    }
}

impl Clone for DirtyRows {
    fn clone(&self) -> (r: Self)
        ensures
            r@ == self@,
            r.wf() == self.wf(),
    {
        DirtyRows { rows: self.rows, len: self.len }
    }
}

impl Default for DirtyRows {
    fn default() -> (r: Self)
        ensures
            r.wf(),
            r@ == Seq::<DirtySpan>::empty(),
    {
        let r = DirtyRows { rows: [DirtySpan::full_row(0);64], len: 0 };
        assert(r@ =~= Seq::empty());
        r
    }
}

/// Dirty-row tracker.  Records which rows were mutated since the last
/// call to `take()`.
#[derive(Debug)]
pub struct DirtyTracker {
    rows: DirtyRows,
    all_dirty: bool,
}

impl View for DirtyTracker {
    type V = DirtyV;

    closed spec fn view(&self) -> DirtyV {
        DirtyV { all: self.all_dirty, spans: self.rows@ }
    }
}

impl DirtyTracker {
    /// The tracker's invariant.
    pub closed spec fn wf(self) -> bool {
        &&& self.rows.wf()
        &&& self.all_dirty ==> self.rows@.len() == 0
    }

    /// What the invariant gives of the viewed record.
    pub proof fn lemma_wf(self)
        requires
            self.wf(),
        ensures
            dirty_wf(self@),
    {
    }

    /// Create a tracker. `row_count` is accepted for API stability; capacity is fixed.
    pub fn new(_row_count: u16) -> (r: Self)
        ensures
            r.wf(),
            r@ == clean(),
    {
        DirtyTracker { rows: DirtyRows::default(), all_dirty: false }
    }

    /// Resize handling: clear tracked rows and mark the whole screen dirty.
    pub fn resize(&mut self, row_count: u16)
        ensures
            final(self).wf(),
            final(self)@ == all_dirty(),
    {
        let _ = row_count;
        self.clear_rows();
        self.mark_all();
    }

    /// Mark a single row dirty.
    pub fn mark_row(&mut self, row: u16)
        requires
            old(self).wf(),
        ensures
            final(self).wf(),
            final(self)@ == marked(old(self)@, row, 0, u16::MAX),
    {
        self.mark_range(row, 0, u16::MAX);
    }

    /// Mark a single cell dirty. The last addressable column number has no
    /// end column of its own, so a mark on it records nothing.
    pub fn mark_cell(&mut self, row: u16, col: u16)
        requires
            old(self).wf(),
        ensures
            final(self).wf(),
            final(self)@ == marked(old(self)@, row, col, if col < u16::MAX {
                    (col + 1) as u16
                } else {
                    u16::MAX
                }),
    {
        self.mark_range(row, col, col.saturating_add(1));
    }

    /// Mark a half-open column range dirty on one row.
    pub fn mark_range(&mut self, row: u16, start_col: u16, end_col: u16)
        requires
            old(self).wf(),
        ensures
            final(self).wf(),
            final(self)@ == marked(old(self)@, row, start_col, end_col),
    {
        if self.all_dirty {
            return ;
        }
        if start_col >= end_col {
            return ;
        }
        if self.rows.push_or_merge(row, start_col, end_col).is_err() {
            self.mark_all();
        }
    }

    /// Mark every row dirty (e.g. after a full screen clear or resize).
    pub fn mark_all(&mut self)
        ensures
            final(self).wf(),
            final(self)@ == all_dirty(),
    {
        self.clear_rows();
        self.all_dirty = true;
    }

    /// Drain and return dirty rows, sorted ascending.
    /// After this call the tracker is clean.
    pub fn take(&mut self) -> (r: DirtySpans)
        requires
            old(self).wf(),
        ensures
            final(self).wf(),
            final(self)@ == clean(),
            r.wf(),
            dirty_wf(r@),
            r@ == old(self)@,
    {
        if self.all_dirty {
            self.all_dirty = false;
            assert(self@.spans =~= Seq::empty());
            DirtySpans::All
        } else {
            let mut rows = DirtyRows::default();
            std::mem::swap(&mut rows, &mut self.rows);
            DirtySpans::Rows(rows)
        }
    }

    /// Whether any rows are marked dirty.
    pub fn is_dirty(&self) -> (r: bool)
        requires
            self.wf(),
        ensures
            r == (self@ != clean()),
    {
        let r = self.all_dirty || !self.rows.is_empty();
        proof {
            if !r {
                assert(self@ =~= clean());
            }
        }
        r
    }

    fn clear_rows(&mut self)
        ensures
            final(self).rows.wf(),
            final(self).rows@ == Seq::<DirtySpan>::empty(),
            final(self).all_dirty == old(self).all_dirty,
    {
        self.rows.clear();
    }
}

impl Default for DirtyTracker {
    fn default() -> (r: Self)
        ensures
            r.wf(),
            r@ == clean(),
    {
        Self::new(0)
    }
}

/// The set of rows changed since the last `take()`.
#[derive(Debug)]
pub enum DirtySpans {
    /// Every row is dirty — e.g. after resize or full clear.
    All,
    /// Specific rows (sorted ascending).
    Rows(DirtyRows),
}

impl View for DirtySpans {
    type V = DirtyV;

    open spec fn view(&self) -> DirtyV {
        match self {
            DirtySpans::All => all_dirty(),
            DirtySpans::Rows(rows) => DirtyV { all: false, spans: rows@ },
        }
    }
}

impl Clone for DirtySpans {
    fn clone(&self) -> (r: Self)
        ensures
            r@ == self@,
            r.wf() == self.wf(),
    {
        match self {
            DirtySpans::All => DirtySpans::All,
            DirtySpans::Rows(rows) => DirtySpans::Rows(rows.clone()),
        }
    }
}

impl DirtySpans {
    /// The invariant of the list of rows, where there is one.
    pub open spec fn wf(self) -> bool {
        match self {
            DirtySpans::All => true,
            DirtySpans::Rows(rows) => rows.wf(),
        }
    }

    /// True when no rows need redraw (`All` is never empty).
    pub fn is_empty(&self) -> (r: bool)
        requires
            self.wf(),
        ensures
            r == (self@ == clean()),
    {
        match self {
            DirtySpans::All => false,
            DirtySpans::Rows(v) => {
                let r = v.is_empty();
                proof {
                    if r {
                        assert(self@ =~= clean());
                    }
                }
                r
            },
        }
    }
}

} // verus!
