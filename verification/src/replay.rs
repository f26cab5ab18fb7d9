//! Painting a state reproduces it.

use crate::canvas::{
    core_allows, core_join_col, core_joined, core_joins, core_line, core_print, core_run,
    core_run_concat, core_run_none, core_run_one, core_run_push, core_step, CoreV,
};
use crate::cell::{bg_attrs, blank_with, plain_attrs, Attrs, CellV};
use crate::model::{
    cell_fits, cluster_is_wide, ends_with_zwj, erased, is_cluster, is_cluster_char, lead_cell,
    put_cluster, row_wf,
};
use crate::ops::PaintOp;
use crate::paint::{
    attrs_ops, column_painted, columns_painted, content_moved, content_written, join_hazard, jumped,
    move_ops, moved, parked_above, print_op, row_painted, run_ends, run_flushed, text_ops, unlinked,
    unlinked_row, with_pen, wrap_hazard, PaintV, PosV, RowJob, RunV,
};
use crate::pen::{sgr_params_apply, sgr_params_fit};
use crate::state::{columns, least};
use crate::wellformed::{erased_wf, put_cluster_wf};
use vstd::prelude::*;

verus! {

/// A well-formed core.
pub open spec fn core_wf(c: CoreV) -> bool {
    &&& 1 <= c.rows <= u16::MAX
    &&& 1 <= c.cols <= u16::MAX
    &&& c.cells.len() == c.rows
    &&& forall|i: int|
        0 <= i < c.rows ==> (#[trigger] c.cells[i]).len() == c.cols && row_wf(c.cells[i])
    &&& 0 <= c.row < c.rows
    &&& 0 <= c.col <= c.cols
    &&& !c.disarmed
}

/// Whether the steps lead from `from` to `to`.
pub open spec fn leads(from: CoreV, p: PaintV, to: CoreV) -> bool {
    core_run(Some(from), p.ops) == Some(to)
}

/// Whether the cursor is where the steps say that it is.
pub open spec fn tracks(c: CoreV, p: PaintV) -> bool {
    c.row == p.pos.row && c.col == p.pos.col && c.pen == p.pen
}

/// The steps that change the pen change the pen alone.
pub(crate) proof fn attrs_run(c: CoreV, target: Attrs)
    ensures
        core_run(Some(c), attrs_ops(target, c.pen)) == Some(
            CoreV { pen: target, joinable: c.joinable && target == c.pen, ..c },
        ),
{
    let ops = attrs_ops(target, c.pen);
    if target == c.pen {
        core_run_none(c);
    } else {
        sgr_params_fit(target, c.pen);
        sgr_params_apply(target, c.pen);
        core_run_one(c, ops[0]);
        assert(ops =~= seq![ops[0]]);
        if target != plain_attrs() && crate::paint::sgr_params(target, c.pen).len() == 0 {
            sgr_of_nothing(c.pen);
            assert(crate::paint::sgr_params(target, c.pen) =~= Seq::empty());
        }
    }
}

proof fn sgr_of_nothing(pen: Attrs)
    ensures
        crate::state::sgr(pen, Seq::empty()) == pen,
{
    reveal(crate::state::sgr);
}

pub(crate) proof fn run_pen(from: CoreV, p: PaintV, c: CoreV, target: Attrs) -> (d: CoreV)
    requires
        leads(from, p, c),
        c.pen == p.pen,
    ensures
        leads(from, with_pen(p, target), d),
        d == (CoreV { pen: target, joinable: c.joinable && target == p.pen, ..c }),
{
    attrs_run(c, target);
    core_run_concat(Some(from), p.ops, attrs_ops(target, p.pen));
    CoreV { pen: target, joinable: c.joinable && target == p.pen, ..c }
}

/// The steps that move the cursor move the cursor alone.
pub(crate) proof fn move_run(c: CoreV, to: PosV)
    requires
        core_wf(c),
        0 <= to.row < c.rows,
        0 <= to.col < c.cols,
    ensures
        core_run(Some(c), move_ops(PosV { row: c.row, col: c.col }, to)) == Some(
            CoreV {
                row: to.row,
                col: to.col,
                joinable: c.joinable && to.row == c.row && to.col == c.col,
                ..c
            },
        ),
{
    let from = PosV { row: c.row, col: c.col };
    let ops = move_ops(from, to);
    if to.row == from.row + 1 && to.col == 0 {
        core_run_one(c, PaintOp::Return);
        let d = core_step(c, PaintOp::Return);
        core_run_push(Some(c), seq![PaintOp::Return], d, PaintOp::Feed);
        assert(seq![PaintOp::Return].push(PaintOp::Feed) =~= ops);
    } else if from.row == to.row && from.col < to.col {
        core_run_one(c, PaintOp::Forward(to.col - from.col));
    } else if to != from {
        core_run_one(c, PaintOp::MoveTo(to.row, to.col));
    } else {
        core_run_none(c);
    }
}

pub(crate) proof fn run_move(from: CoreV, p: PaintV, c: CoreV, to: PosV) -> (d: CoreV)
    requires
        leads(from, p, c),
        tracks(c, p),
        core_wf(c),
        0 <= to.row < c.rows,
        0 <= to.col < c.cols,
    ensures
        leads(from, moved(p, to), d),
        d == (CoreV { row: to.row, col: to.col, joinable: c.joinable && to == p.pos, ..c }),
{
    move_run(c, to);
    assert(p.pos == PosV { row: c.row, col: c.col });
    core_run_concat(Some(from), p.ops, move_ops(p.pos, to));
    CoreV { row: to.row, col: to.col, joinable: c.joinable && to == p.pos, ..c }
}

pub(crate) proof fn run_jump(from: CoreV, p: PaintV, c: CoreV, to: PosV) -> (d: CoreV)
    requires
        leads(from, p, c),
        core_wf(c),
        0 <= to.row < c.rows,
        0 <= to.col < c.cols,
    ensures
        leads(from, jumped(p, to), d),
        d == (CoreV { row: to.row, col: to.col, joinable: false, ..c }),
{
    core_run_push(Some(from), p.ops, c, PaintOp::MoveTo(to.row, to.col));
    CoreV { row: to.row, col: to.col, joinable: false, ..c }
}

/// Writing a cluster over a prefix of it gives what writing it at once gives.
proof fn put_twice(
    cells: Seq<CellV>,
    col: int,
    first: Seq<char>,
    wide1: bool,
    second: Seq<char>,
    wide2: bool,
    attrs: Attrs,
)
    requires
        0 <= col < cells.len(),
        wide1 ==> wide2,
    ensures
        put_cluster(
            put_cluster(cells, col, first, wide1, attrs, 0, None),
            col,
            second,
            wide2,
            attrs,
            0,
            None,
        ) == put_cluster(cells, col, second, wide2, attrs, 0, None),
{
    assert(put_cluster(
        put_cluster(cells, col, first, wide1, attrs, 0, None),
        col,
        second,
        wide2,
        attrs,
        0,
        None,
    ) =~= put_cluster(cells, col, second, wide2, attrs, 0, None));
}

/// What writing the cluster `text` at a position leads to.
pub open spec fn cluster_put(c: CoreV, text: Seq<char>, row: int, col: int) -> CoreV {
    CoreV {
        cells: c.cells.update(
            row,
            put_cluster(c.cells[row], col, text, cluster_is_wide(text), c.pen, 0, None),
        ),
        row,
        col: least(col + columns(cluster_is_wide(text)), c.cols),
        joinable: true,
        ..c
    }
}

/// Whether the next character that takes a column lands at a position: the
/// cursor is there, or parked at the end of the row above.
pub open spec fn lands(c: CoreV, row: int, col: int) -> bool {
    ||| c.row == row && c.col == col
    ||| c.row + 1 == row && c.col == c.cols && col == 0
}

/// Printing one more character.
proof fn core_run_print(c: CoreV, ops: Seq<PaintOp>, d: CoreV, ch: char)
    requires
        core_run(Some(c), ops) == Some(d),
        core_allows(d, PaintOp::Print(ch)),
    ensures
        core_run(Some(c), ops.push(print_op(ch))) == Some(core_print(d, ch)),
{
    core_run_push(Some(c), ops, d, print_op(ch));
}

/// Printing the characters of a cluster one after the other writes it, unless
/// its first character joins what stands before.
pub(crate) proof fn text_run(c: CoreV, text: Seq<char>, row: int, col: int)
    requires
        core_wf(c),
        c.modes.autowrap,
        is_cluster(text),
        0 <= row < c.rows,
        0 <= col < c.cols,
        lands(c, row, col),
        !core_joins(c, text[0]),
    ensures
        core_run(Some(c), text_ops(text)) == Some(cluster_put(c, text, row, col)),
    decreases text.len(),
{
    assert(is_cluster_char(text, text.len() - 1));
    let ch = text.last();
    if text.len() == 1 {
        assert(text =~= seq![ch]);
        assert(text_ops(text.drop_last()) == Seq::<PaintOp>::empty());
        core_run_none(c);
        assert(core_print(c, ch) =~= cluster_put(c, text, row, col));
        core_run_print(c, text_ops(text.drop_last()), c, ch);
    } else {
        let start = text.drop_last();
        assert(start[0] == text[0]);
        assert forall|i: int| 0 <= i < start.len() implies #[trigger] is_cluster_char(start, i) by {
            assert(is_cluster_char(text, i));
        }
        text_run(c, start, row, col);
        let d = cluster_put(c, start, row, col);
        let wide1 = cluster_is_wide(start);
        let wide2 = cluster_is_wide(text);
        let put = put_cluster(c.cells[row], col, start, wide1, c.pen, 0, None);
        assert(core_line(d) == put);
        assert(put.len() == c.cols);
        assert(core_join_col(d) == col);
        assert(put[col] == lead_cell(start, wide1, c.pen, 0, None));
        assert(core_joins(d, ch));
        assert(start.push(ch) =~= text);
        put_twice(c.cells[row], col, start, wide1, text, wide2, c.pen);
        assert(core_joined(d, col, ch) =~= cluster_put(c, text, row, col));
        core_run_print(c, text_ops(start), d, ch);
    }
}

// ── One row ─────────────────────────────────────────────────────────────────

/// A well-formed row to paint.
pub open spec fn job_wf(job: RowJob, c: CoreV) -> bool {
    &&& 0 <= job.row < c.rows
    &&& job.cols == c.cols
    &&& job.cells.len() == c.cols
    &&& job.prev.len() == c.cols
    &&& row_wf(job.cells)
    &&& row_wf(job.prev)
    &&& job.above is Some == (job.row > 0)
    &&& job.above matches Some(above) ==> c.cells[job.row - 1] == unlinked_row(above)
        && above.len() == c.cols
}

/// Whether the core outside the painted row is that of `entry`, apart from the
/// cursor and the pen.
pub open spec fn frame(c: CoreV, entry: CoreV, row: int) -> bool {
    &&& c.rows == entry.rows
    &&& c.cols == entry.cols
    &&& c.modes == entry.modes
    &&& c.saved == entry.saved
    &&& c.cells.len() == entry.cells.len()
    &&& forall|i: int| 0 <= i < c.cells.len() && i != row ==> #[trigger] c.cells[i] == entry.cells[i]
}

/// The first column that is neither painted nor part of a painted wide cell.
pub open spec fn next_column(job: RowJob, col: int) -> int {
    if 0 < col < job.cols && job.cells[col - 1].is_wide {
        col + 1
    } else {
        col
    }
}

/// Whether the column `j` of the painted row is as it should be when the
/// columns before `next` are painted, but for a run from `done` on.
pub open spec fn column_ok(d: Seq<CellV>, job: RowJob, done: int, next: int, j: int) -> bool {
    &&& j < done ==> d[j] == unlinked(job.cells[j])
    &&& j == next ==> d[j] == unlinked(job.prev[j]) || job.prev[j].is_wide_continuation
    &&& j > next ==> d[j] == unlinked(job.prev[j])
}

/// Whether the cell at `j` is a blank of the run.
pub open spec fn run_cell(job: RowJob, run: RunV, j: int) -> bool {
    job.cells[j] == blank_with(run.attrs)
}

/// Whether every column of the painted row is as it should be.
pub open spec fn columns_ok(d: Seq<CellV>, job: RowJob, done: int, next: int) -> bool {
    forall|j: int| 0 <= j < job.cols ==> #[trigger] column_ok(d, job, done, next, j)
}

/// The first column that is not yet what it should be.
pub open spec fn done_before(run: Option<RunV>, next: int) -> int {
    match run {
        Some(run) => run.start,
        None => next,
    }
}

/// The state of the painted row after the columns before `col`.
pub open spec fn row_state(d: Seq<CellV>, job: RowJob, col: int, run: Option<RunV>) -> bool {
    let next = next_column(job, col);
    &&& d.len() == job.cols
    &&& row_wf(d)
    &&& run matches Some(run) ==> {
        &&& 0 <= run.start < col
        &&& next == col
        &&& run.attrs == bg_attrs(run.attrs.background)
        &&& forall|j: int| run.start <= j < col ==> #[trigger] run_cell(job, run, j)
    }
    &&& columns_ok(d, job, done_before(run, next), next)
}

/// Erasing a run makes its columns what they should be.
proof fn erase_run(d: Seq<CellV>, job: RowJob, col: int, run: RunV, end: int) -> (e: Seq<CellV>)
    requires
        row_wf(job.cells),
        job.cells.len() == job.cols,
        row_state(d, job, col, Some(run)),
        col <= job.cols,
        end == col,
    ensures
        e == erased(d, run.start, end, blank_with(run.attrs)),
        row_state(e, job, col, None),
{
    let blank = blank_with(run.attrs);
    let e = erased(d, run.start, end, blank);
    let next = next_column(job, col);
    erased_wf(d, run.start, end, blank);
    assert(columns_ok(d, job, run.start, next));
    assert(run_cell(job, run, run.start));
    assert(run_cell(job, run, col - 1));
    assert(cell_fits(job.cells, run.start));
    assert(cell_fits(d, run.start));
    if run.start > 0 {
        assert(column_ok(d, job, run.start, next, run.start - 1));
    }
    assert forall|j: int| 0 <= j < job.cols implies #[trigger] column_ok(e, job, next, next, j) by {
        assert(column_ok(d, job, run.start, next, j));
        if run.start <= j < col {
            assert(run_cell(job, run, j));
        }
    }
    e
}

#[verifier::spinoff_prover]
proof fn run_flush(
    from: CoreV,
    p: PaintV,
    c: CoreV,
    entry: CoreV,
    job: RowJob,
    col: int,
    run: RunV,
    end: Option<int>,
) -> (d: CoreV)
    requires
        leads(from, p, c),
        tracks(c, p),
        core_wf(c),
        frame(c, entry, job.row),
        job_wf(job, entry),
        row_state(c.cells[job.row], job, col, Some(run)),
        col <= job.cols,
        end == Some(col) || (end is None && col == job.cols),
    ensures
        leads(from, run_flushed(p, job.row, Some(run), end), d),
        tracks(d, run_flushed(p, job.row, Some(run), end)),
        core_wf(d),
        frame(d, entry, job.row),
        row_state(d.cells[job.row], job, col, None),
        !d.joinable,
        d.row == job.row,
        d.col == run.start,
{
    let to = PosV { row: job.row, col: run.start };
    let c1 = run_move(from, p, c, to);
    let p1 = moved(p, to);
    let c2 = run_pen(from, p1, c1, run.attrs);
    let p2 = with_pen(p1, run.attrs);
    let line = c.cells[job.row];
    assert(core_line(c2) == line);
    let e = erase_run(line, job, col, run, col);
    let op = match end {
        Some(end) => PaintOp::EraseChars(end - run.start),
        None => PaintOp::EraseLine,
    };
    core_run_push(Some(from), p2.ops, c2, op);
    let d = core_step(c2, op);
    assert(d.cells =~= c.cells.update(job.row, e));
    d
}

/// Writing the cell at `col` into the row makes it what it should be there.
proof fn content_state(line: Seq<CellV>, job: RowJob, col: int) -> (put: Seq<CellV>)
    requires
        row_wf(job.cells),
        job.cells.len() == job.cols,
        row_state(line, job, col, None),
        0 <= col < job.cols,
        next_column(job, col) == col,
        job.cells[col].contents.len() > 0,
    ensures
        put == put_cluster(
            line,
            col,
            job.cells[col].contents,
            cluster_is_wide(job.cells[col].contents),
            job.cells[col].attrs,
            0,
            None,
        ),
        is_cluster(job.cells[col].contents),
        job.cells[col].is_wide == cluster_is_wide(job.cells[col].contents),
        row_state(put, job, col + 1, None),
{
    let cell = job.cells[col];
    let text = cell.contents;
    assert(columns_ok(line, job, col, col));
    assert(cell_fits(job.cells, col));
    let put = put_cluster(line, col, text, cell.is_wide, cell.attrs, 0, None);
    put_cluster_wf(line, col, text, cell.is_wide, cell.attrs, 0, None);
    assert(cell_fits(line, col));
    if col > 0 {
        assert(column_ok(line, job, col, col, col - 1));
        assert(cell_fits(job.cells, col - 1));
    }
    let next = next_column(job, col + 1);
    if cell.is_wide && col + 1 < job.cols {
        assert(cell_fits(job.cells, col + 1));
    }
    assert forall|j: int| 0 <= j < job.cols implies #[trigger] column_ok(put, job, next, next, j) by {
        assert(column_ok(line, job, col, col, j));
    }
    assert(columns_ok(put, job, next, next));
    put
}

/// Before text is written, the cursor is where the text lands, and the text
/// joins nothing that stands before it.
proof fn run_content_move(
    from: CoreV,
    p: PaintV,
    c: CoreV,
    entry: CoreV,
    job: RowJob,
    col: int,
) -> (d: CoreV)
    requires
        leads(from, p, c),
        tracks(c, p),
        core_wf(c),
        frame(c, entry, job.row),
        job_wf(job, entry),
        row_state(c.cells[job.row], job, col, None),
        0 <= col < job.cols,
        next_column(job, col) == col,
    ensures
        leads(from, content_moved(p, job, col), d),
        d.pen == c.pen,
        content_moved(p, job, col).pen == p.pen,
        d == (CoreV { row: d.row, col: d.col, joinable: d.joinable, ..c }),
        core_wf(d),
        lands(d, job.row, col),
        !d.joinable || core_join_col(d) < 0 || !ends_with_zwj(
            core_line(d)[core_join_col(d)].contents,
        ),
{
    let to = PosV { row: job.row, col };
    let line = c.cells[job.row];
    assert(columns_ok(line, job, col, col));
    if p.pos != to {
        if job.wrapping && parked_above(p, job) && col == 0 {
            if wrap_hazard(job) {
                run_jump(from, p, c, to)
            } else {
                let above = job.above->Some_0;
                assert(c.cells[job.row - 1] == unlinked_row(above));
                assert(core_line(c)[c.cols - 1] == unlinked(above[c.cols - 1]));
                assert(!ends_with_zwj(core_line(c)[core_join_col(c)].contents));
                c
            }
        } else {
            run_move(from, p, c, to)
        }
    } else if join_hazard(job.cells, col) {
        run_jump(from, p, c, to)
    } else {
        if col > 0 {
            assert(column_ok(line, job, col, col, col - 1));
            if col > 1 {
                assert(column_ok(line, job, col, col, col - 2));
            }
            assert(!ends_with_zwj(core_line(c)[core_join_col(c)].contents));
        }
        c
    }
}

/// Writing the text of a cell.
proof fn run_content(
    from: CoreV,
    p: PaintV,
    c: CoreV,
    entry: CoreV,
    job: RowJob,
    col: int,
) -> (d: CoreV)
    requires
        leads(from, p, c),
        tracks(c, p),
        core_wf(c),
        c.modes.autowrap,
        frame(c, entry, job.row),
        job_wf(job, entry),
        row_state(c.cells[job.row], job, col, None),
        0 <= col < job.cols,
        next_column(job, col) == col,
        job.cells[col].contents.len() > 0,
    ensures
        leads(from, content_written(p, job, col), d),
        tracks(d, content_written(p, job, col)),
        core_wf(d),
        d.modes.autowrap,
        frame(d, entry, job.row),
        row_state(d.cells[job.row], job, col + 1, None),
{
    let cell = job.cells[col];
    let text = cell.contents;
    let line = c.cells[job.row];
    let p1 = content_moved(p, job, col);
    let c1 = run_content_move(from, p, c, entry, job, col);
    let c2 = run_pen(from, p1, c1, cell.attrs);
    let p2 = with_pen(p1, cell.attrs);
    let put = content_state(line, job, col);
    assert(core_line(c2) == core_line(c1));
    assert(core_join_col(c2) == core_join_col(c1));
    assert(!core_joins(c2, text[0]));
    text_run(c2, text, job.row, col);
    core_run_concat(Some(from), p2.ops, text_ops(text));
    let d = cluster_put(c2, text, job.row, col);
    assert(d.cells == c.cells.update(job.row, put));
    d
}

/// Painting one column keeps the row on its way.
proof fn run_column(
    from: CoreV,
    p: PaintV,
    c: CoreV,
    entry: CoreV,
    job: RowJob,
    col: int,
    run: Option<RunV>,
) -> (d: CoreV)
    requires
        leads(from, p, c),
        tracks(c, p),
        core_wf(c),
        c.modes.autowrap,
        frame(c, entry, job.row),
        job_wf(job, entry),
        row_state(c.cells[job.row], job, col, run),
        0 <= col < job.cols,
        next_column(job, col) == col,
    ensures
        leads(from, column_painted(p, run, job, col).0, d),
        tracks(d, column_painted(p, run, job, col).0),
        core_wf(d),
        d.modes.autowrap,
        frame(d, entry, job.row),
        row_state(d.cells[job.row], job, col + 1, column_painted(p, run, job, col).1),
{
    let cell = job.cells[col];
    let ends = run_ends(run, cell);
    assert(cell_fits(job.cells, col));
    assert(!cell.is_wide_continuation);
    let c1 = if ends {
        run_flush(from, p, c, entry, job, col, run->Some_0, Some(col))
    } else {
        c
    };
    let p1 = if ends {
        run_flushed(p, job.row, run, Some(col))
    } else {
        p
    };
    let left = if ends {
        None
    } else {
        run
    };
    let line = c1.cells[job.row];
    let next = next_column(job, col + 1);
    assert(columns_ok(line, job, done_before(left, col), col));
    if cell == job.prev[col] {
        match left {
            None => {
                if cell.is_wide && col + 1 < job.cols {
                    assert(cell_fits(job.cells, col + 1));
                    assert(cell_fits(job.prev, col + 1));
                }
                assert forall|j: int| 0 <= j < job.cols implies #[trigger] column_ok(
                    line,
                    job,
                    next,
                    next,
                    j,
                ) by {
                    assert(column_ok(line, job, col, col, j));
                }
            },
            Some(r) => {
                assert forall|j: int| r.start <= j < col + 1 implies #[trigger] run_cell(job, r, j) by {
                    if j < col {
                        assert(run_cell(job, r, j));
                    }
                }
                assert forall|j: int| 0 <= j < job.cols implies #[trigger] column_ok(
                    line,
                    job,
                    r.start,
                    next,
                    j,
                ) by {
                    assert(column_ok(line, job, r.start, col, j));
                }
            },
        }
        c1
    } else if cell.contents.len() > 0 {
        assert(left is None);
        run_content(from, p1, c1, entry, job, col)
    } else {
        let r = match left {
            None => RunV { start: col, attrs: cell.attrs },
            Some(r) => r,
        };
        assert(run_cell(job, r, col));
        assert forall|j: int| r.start <= j < col + 1 implies #[trigger] run_cell(job, r, j) by {
            if j < col {
                assert(run_cell(job, left->Some_0, j));
            }
        }
        assert forall|j: int| 0 <= j < job.cols implies #[trigger] column_ok(
            line,
            job,
            r.start,
            next,
            j,
        ) by {
            assert(column_ok(line, job, r.start, col, j));
        }
        c1
    }
}

/// Painting the columns of a row one after the other.
proof fn run_columns(from: CoreV, p: PaintV, entry: CoreV, job: RowJob, col: int) -> (d: CoreV)
    requires
        leads(from, p, entry),
        tracks(entry, p),
        core_wf(entry),
        entry.modes.autowrap,
        job_wf(job, entry),
        entry.cells[job.row] == unlinked_row(job.prev),
        0 <= col <= job.cols,
    ensures
        leads(from, columns_painted(p, job, col).0, d),
        tracks(d, columns_painted(p, job, col).0),
        core_wf(d),
        d.modes.autowrap,
        frame(d, entry, job.row),
        row_state(d.cells[job.row], job, col, columns_painted(p, job, col).1),
    decreases col,
{
    if col == 0 {
        assert forall|j: int| 0 <= j < job.cols implies #[trigger] column_ok(
            entry.cells[job.row],
            job,
            0,
            0,
            j,
        ) by {}
        entry
    } else {
        let c = run_columns(from, p, entry, job, col - 1);
        let (q, run) = columns_painted(p, job, col - 1);
        if col >= 2 && job.cells[col - 2].is_wide {
            assert(cell_fits(job.cells, col - 1));
            assert(run is None);
            assert(next_column(job, col) == col);
            assert(columns_ok(c.cells[job.row], job, col, col));
            assert forall|j: int| 0 <= j < job.cols implies #[trigger] column_ok(
                c.cells[job.row],
                job,
                col,
                col,
                j,
            ) by {
                assert(column_ok(c.cells[job.row], job, col, col, j));
            }
            c
        } else {
            run_column(from, q, c, entry, job, col - 1, run)
        }
    }
}

/// Painting a row over what the destination shows makes it show the row.
pub(crate) proof fn run_row(from: CoreV, p: PaintV, entry: CoreV, job: RowJob) -> (d: CoreV)
    requires
        leads(from, p, entry),
        tracks(entry, p),
        core_wf(entry),
        entry.modes.autowrap,
        job_wf(job, entry),
        entry.cells[job.row] == unlinked_row(job.prev),
    ensures
        leads(from, row_painted(p, job), d),
        tracks(d, row_painted(p, job)),
        core_wf(d),
        d.modes.autowrap,
        frame(d, entry, job.row),
        d.cells[job.row] == unlinked_row(job.cells),
{
    let c = run_columns(from, p, entry, job, job.cols);
    let (q, run) = columns_painted(p, job, job.cols);
    let d = match run {
        None => c,
        Some(r) => run_flush(from, q, c, entry, job, job.cols, r, None),
    };
    assert(columns_ok(d.cells[job.row], job, job.cols, job.cols));
    assert forall|j: int| 0 <= j < job.cols implies d.cells[job.row][j] == unlinked_row(
        job.cells,
    )[j] by {
        assert(column_ok(d.cells[job.row], job, job.cols, job.cols, j));
    }
    assert(d.cells[job.row] =~= unlinked_row(job.cells));
    d
}

} // verus!
