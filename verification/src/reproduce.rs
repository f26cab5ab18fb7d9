//! Written sequences reproduce a whole screen.

use crate::canvas::{
    core_blank, core_join_col, core_joins, core_line, core_run, core_run_concat, core_run_none,
    core_run_one, core_run_push, core_step, unlinked_rows, CoreV,
};
use crate::cell::{blank_cell, plain_attrs, Attrs, CellV};
use crate::model::{
    blank_cells, cell_fits, cluster_is_wide, ends_with_zwj, erased, is_cluster, put_cluster, row_wf,
};
use crate::ops::PaintOp;
use crate::paint::{
    attrs_ops, continues, cursor_restored, diff_job, fresh_job, full_paint, jumped, move_ops,
    paint_finished, parked_above, repaint, row_entered, row_reentered, rows_painted, rows_repainted,
    text_ops, unlinked, unlinked_row, with_pen, wrap_hazard, PaintV, PosV, RowJob,
};
use crate::replay::{
    attrs_run, cluster_put, core_wf, job_wf, lands, leads, move_run, run_jump, run_pen, run_row,
    text_run, tracks,
};
use crate::state::{grid_wf, GridV};
use crate::wellformed::{blank_cells_wf, single_is_cluster};
use crate::width::char_columns;
use vstd::prelude::*;

verus! {

/// Writing the cluster that a cell already holds changes nothing.
proof fn put_same(line: Seq<CellV>, col: int)
    requires
        row_wf(line),
        0 <= col < line.len(),
        line[col].contents.len() > 0,
        line[col].hyperlink is None,
        line[col].hyperlink_id == 0,
    ensures
        is_cluster(line[col].contents),
        line[col].is_wide == cluster_is_wide(line[col].contents),
        put_cluster(
            line,
            col,
            line[col].contents,
            cluster_is_wide(line[col].contents),
            line[col].attrs,
            0,
            None,
        ) == line,
{
    let cell = line[col];
    assert(cell_fits(line, col));
    if col + 1 < line.len() {
        assert(cell_fits(line, col + 1));
    }
    if col + 2 < line.len() {
        assert(cell_fits(line, col + 2));
    }
    assert(put_cluster(line, col, cell.contents, cell.is_wide, cell.attrs, 0, None) =~= line);
}

/// A space written over a blank and erased again changes nothing.
proof fn space_erased(line: Seq<CellV>, col: int, attrs: Attrs)
    requires
        row_wf(line),
        0 <= col < line.len(),
        line[col].contents.len() == 0,
        !line[col].is_wide_continuation,
    ensures
        erased(
            put_cluster(line, col, seq![' '], false, attrs, 0, None),
            col,
            col + 1,
            line[col],
        ) == line,
{
    assert(cell_fits(line, col));
    if col + 1 < line.len() {
        assert(cell_fits(line, col + 1));
    }
    assert(erased(
        put_cluster(line, col, seq![' '], false, attrs, 0, None),
        col,
        col + 1,
        line[col],
    ) =~= line);
}

/// A space is a cluster of one column.
proof fn space_is_cluster()
    ensures
        is_cluster(seq![' ']),
        !cluster_is_wide(seq![' ']),
{
    single_is_cluster(' ');
}

/// The steps that print one space.
proof fn space_ops()
    ensures
        text_ops(seq![' ']) == seq![PaintOp::Print(' ')],
{
    assert(seq![' '].drop_last() =~= Seq::<char>::empty());
    assert(text_ops(seq![' '].drop_last()) =~= Seq::<PaintOp>::empty());
    assert(text_ops(seq![' ']) =~= seq![PaintOp::Print(' ')]);
}

/// A parked cursor at the end of a row that ends with no joiner: the next
/// character that takes a column does not join it.
proof fn wrap_joins_nothing(c: CoreV, p: PaintV, job: RowJob, ch: char)
    requires
        core_wf(c),
        tracks(c, p),
        job_wf(job, c),
        parked_above(p, job),
        !wrap_hazard(job),
        char_columns(ch) > 0,
    ensures
        !core_joins(c, ch),
        lands(c, job.row, 0),
{
    let above = job.above->Some_0;
    assert(c.cells[job.row - 1] == unlinked_row(above));
    assert(core_line(c)[c.cols - 1] == unlinked(above[c.cols - 1]));
    if c.cols > 1 {
        assert(core_line(c)[c.cols - 2] == unlinked(above[c.cols - 2]));
    }
    assert(!ends_with_zwj(core_line(c)[core_join_col(c)].contents));
}

/// Entering a row of blanks leaves the screen as it was.
proof fn run_enter(from: CoreV, p: PaintV, c: CoreV, job: RowJob) -> (d: CoreV)
    requires
        leads(from, p, c),
        tracks(c, p),
        core_wf(c),
        c.modes.autowrap,
        job_wf(job, c),
        job.prev == blank_cells(job.cols, blank_cell()),
        c.cells[job.row] == unlinked_row(job.prev),
    ensures
        leads(from, row_entered(p, job), d),
        tracks(d, row_entered(p, job)),
        core_wf(d),
        d == (CoreV { row: d.row, col: d.col, pen: d.pen, joinable: d.joinable, ..c }),
{
    let home = PosV { row: job.row, col: 0 };
    if job.wrapping && job.cells[0] == blank_cell() {
        if parked_above(p, job) && !wrap_hazard(job) {
            let c1 = run_pen(from, p, c, plain_attrs());
            let q = with_pen(p, plain_attrs());
            wrap_joins_nothing(c1, q, job, ' ');
            space_is_cluster();
            space_ops();
            text_run(c1, seq![' '], job.row, 0);
            let c2 = cluster_put(c1, seq![' '], job.row, 0);
            let printed = seq![PaintOp::Print(' ')];
            core_run_push(Some(c1), printed, c2, PaintOp::Back);
            let c3 = core_step(c2, PaintOp::Back);
            let backed = printed.push(PaintOp::Back);
            core_run_push(Some(c1), backed, c3, PaintOp::EraseChars(1));
            let c4 = core_step(c3, PaintOp::EraseChars(1));
            let line = c.cells[job.row];
            assert(line[0] == blank_cell());
            assert(core_blank(c3) == blank_cell());
            space_erased(line, 0, plain_attrs());
            assert(c4.cells =~= c.cells);
            let ops = seq![PaintOp::Print(' '), PaintOp::Back, PaintOp::EraseChars(1)];
            assert(ops =~= backed.push(PaintOp::EraseChars(1)));
            core_run_concat(Some(from), q.ops, ops);
            c4
        } else {
            run_jump(from, p, c, home)
        }
    } else {
        c
    }
}

/// Printing the characters of a cluster after other steps.
proof fn run_text(from: CoreV, ops: Seq<PaintOp>, c: CoreV, text: Seq<char>, row: int, col: int)
    requires
        core_run(Some(from), ops) == Some(c),
        core_wf(c),
        c.modes.autowrap,
        is_cluster(text),
        0 <= row < c.rows,
        0 <= col < c.cols,
        lands(c, row, col),
        !core_joins(c, text[0]),
    ensures
        core_run(Some(from), ops + text_ops(text)) == Some(cluster_put(c, text, row, col)),
{
    text_run(c, text, row, col);
    core_run_concat(Some(from), ops, text_ops(text));
}

/// Entering a row of a previous state leaves the screen as it was.
proof fn run_reenter(
    from: CoreV,
    p: PaintV,
    c: CoreV,
    job: RowJob,
    prev_wrapping: bool,
) -> (d: CoreV)
    requires
        leads(from, p, c),
        tracks(c, p),
        core_wf(c),
        c.modes.autowrap,
        job_wf(job, c),
        c.cells[job.row] == unlinked_row(job.prev),
    ensures
        leads(from, row_reentered(p, job, prev_wrapping), d),
        tracks(d, row_reentered(p, job, prev_wrapping)),
        core_wf(d),
        d == (CoreV { row: d.row, col: d.col, pen: d.pen, joinable: d.joinable, ..c }),
{
    let first = job.cells[0];
    if job.wrapping && !prev_wrapping && first == job.prev[0] && parked_above(p, job)
        && !wrap_hazard(job) {
        let c1 = run_pen(from, p, c, first.attrs);
        let q = with_pen(p, first.attrs);
        let line = c.cells[job.row];
        assert(line[0] == unlinked(first));
        assert(cell_fits(line, 0));
        if first.contents.len() == 0 {
            let text = seq![' '];
            space_is_cluster();
            wrap_joins_nothing(c1, q, job, ' ');
            run_text(from, q.ops, c1, text, job.row, 0);
            let c2 = cluster_put(c1, text, job.row, 0);
            let o2 = q.ops + text_ops(text);
            core_run_push(Some(from), o2, c2, PaintOp::Back);
            let c3 = core_step(c2, PaintOp::Back);
            let o3 = o2.push(PaintOp::Back);
            core_run_push(Some(from), o3, c3, PaintOp::EraseChars(1));
            let c4 = core_step(c3, PaintOp::EraseChars(1));
            assert(core_blank(c3) == line[0]);
            space_erased(line, 0, first.attrs);
            assert(c4.cells =~= c.cells);
            assert(row_reentered(p, job, prev_wrapping).ops =~= o3.push(PaintOp::EraseChars(1)));
            c4
        } else {
            let text = first.contents;
            assert(line[0].contents == text);
            put_same(line, 0);
            wrap_joins_nothing(c1, q, job, text[0]);
            run_text(from, q.ops, c1, text, job.row, 0);
            let c2 = cluster_put(c1, text, job.row, 0);
            assert(c2.cells =~= c.cells);
            let o2 = q.ops + text_ops(text);
            core_run_push(Some(from), o2, c2, PaintOp::Back);
            let c3 = core_step(c2, PaintOp::Back);
            let o3 = o2.push(PaintOp::Back);
            if first.is_wide {
                core_run_push(Some(from), o3, c3, PaintOp::Back);
                let c4 = core_step(c3, PaintOp::Back);
                assert(row_reentered(p, job, prev_wrapping).ops =~= o3.push(PaintOp::Back));
                c4
            } else {
                assert(row_reentered(p, job, prev_wrapping).ops =~= o3);
                c3
            }
        }
    } else {
        c
    }
}

/// Whether the rows before `n` show `g`, and the others `rest`.
pub open spec fn rows_state(c: CoreV, g: GridV, n: int, rest: Seq<Seq<CellV>>) -> bool {
    forall|i: int|
        0 <= i < c.rows ==> #[trigger] c.cells[i] == (if i < n {
            unlinked_row(g.screen[i].cells)
        } else {
            rest[i]
        })
}

/// Whether two cores differ at most in the cells, the cursor and the pen.
pub open spec fn same_rest(c: CoreV, d: CoreV) -> bool {
    c.rows == d.rows && c.cols == d.cols && c.modes == d.modes && c.saved == d.saved
        && c.cells.len() == d.cells.len()
}

/// A row to paint is well-formed when the rows above show the state.
proof fn job_is_wf(c: CoreV, g: GridV, row: int, rest: Seq<Seq<CellV>>, job: RowJob)
    requires
        core_wf(c),
        grid_wf(g),
        c.rows == g.rows,
        c.cols == g.cols,
        0 <= row < g.rows,
        rows_state(c, g, row, rest),
        job == (RowJob { prev: job.prev, ..fresh_job(g, row) }),
        job.prev.len() == g.cols,
        row_wf(job.prev),
    ensures
        job_wf(job, c),
{
    assert(g.screen[row].cells.len() == g.cols);
    if row > 0 {
        assert(g.screen[row - 1].cells.len() == g.cols);
        assert(c.cells[row - 1] == unlinked_row(g.screen[row - 1].cells));
    }
}

/// Painting rows over blanks makes them show the state.
proof fn run_rows(from: CoreV, p: PaintV, entry: CoreV, g: GridV, n: int) -> (d: CoreV)
    requires
        leads(from, p, entry),
        tracks(entry, p),
        core_wf(entry),
        entry.modes.autowrap,
        grid_wf(g),
        entry.rows == g.rows,
        entry.cols == g.cols,
        forall|i: int|
            0 <= i < g.rows ==> #[trigger] entry.cells[i] == blank_cells(g.cols, blank_cell()),
        0 <= n <= g.rows,
    ensures
        leads(from, rows_painted(p, g, n), d),
        tracks(d, rows_painted(p, g, n)),
        core_wf(d),
        same_rest(d, entry),
        rows_state(d, g, n, entry.cells),
    decreases n,
{
    if n == 0 {
        entry
    } else {
        let c = run_rows(from, p, entry, g, n - 1);
        let q = rows_painted(p, g, n - 1);
        let job = fresh_job(g, n - 1);
        blank_cells_wf(g.cols, blank_cell());
        job_is_wf(c, g, n - 1, entry.cells, job);
        assert(unlinked_row(job.prev) =~= job.prev);
        assert(c.cells[n - 1] == entry.cells[n - 1]);
        let c1 = run_enter(from, q, c, job);
        let d = run_row(from, row_entered(q, job), c1, job);
        assert forall|i: int| 0 <= i < d.rows implies #[trigger] d.cells[i] == (if i < n {
            unlinked_row(g.screen[i].cells)
        } else {
            entry.cells[i]
        }) by {
            assert(c.cells[i] == (if i < n - 1 {
                unlinked_row(g.screen[i].cells)
            } else {
                entry.cells[i]
            }));
        }
        d
    }
}

/// Painting rows over a previous state makes them show the state.
proof fn run_rows_diff(
    from: CoreV,
    p: PaintV,
    entry: CoreV,
    g: GridV,
    prev: GridV,
    n: int,
) -> (d: CoreV)
    requires
        leads(from, p, entry),
        tracks(entry, p),
        core_wf(entry),
        entry.modes.autowrap,
        grid_wf(g),
        grid_wf(prev),
        entry.rows == g.rows,
        entry.cols == g.cols,
        prev.rows == g.rows,
        prev.cols == g.cols,
        entry.cells == unlinked_rows(prev.screen),
        0 <= n <= g.rows,
    ensures
        leads(from, rows_repainted(p, g, prev, n), d),
        tracks(d, rows_repainted(p, g, prev, n)),
        core_wf(d),
        same_rest(d, entry),
        rows_state(d, g, n, entry.cells),
    decreases n,
{
    if n == 0 {
        entry
    } else {
        let c = run_rows_diff(from, p, entry, g, prev, n - 1);
        let q = rows_repainted(p, g, prev, n - 1);
        let job = diff_job(g, prev, n - 1);
        assert(prev.screen[n - 1].cells.len() == g.cols);
        job_is_wf(c, g, n - 1, entry.cells, job);
        assert(c.cells[n - 1] == entry.cells[n - 1]);
        let c1 = run_reenter(from, q, c, job, continues(prev, n - 1));
        let d = run_row(from, row_reentered(q, job, continues(prev, n - 1)), c1, job);
        assert forall|i: int| 0 <= i < d.rows implies #[trigger] d.cells[i] == (if i < n {
            unlinked_row(g.screen[i].cells)
        } else {
            entry.cells[i]
        }) by {
            assert(c.cells[i] == (if i < n - 1 {
                unlinked_row(g.screen[i].cells)
            } else {
                entry.cells[i]
            }));
        }
        d
    }
}

/// The cursor restored by writing the last cell of its row once more.
proof fn run_repark(from: CoreV, p: PaintV, c: CoreV, g: GridV, lead: int) -> (d: CoreV)
    requires
        leads(from, p, c),
        tracks(c, p),
        core_wf(c),
        c.modes.autowrap,
        grid_wf(g),
        c.rows == g.rows,
        c.cols == g.cols,
        c.cells == unlinked_rows(g.screen),
        g.col == g.cols,
        0 <= lead < g.cols,
        lead == g.cols - 1 || (lead == g.cols - 2 && g.screen[g.row].cells[g.cols
            - 1].is_wide_continuation),
        g.screen[g.row].cells[lead].contents.len() > 0,
    ensures
        core_run(
            Some(from),
            p.ops + seq![PaintOp::MoveTo(g.row, lead)] + attrs_ops(
                g.screen[g.row].cells[lead].attrs,
                p.pen,
            ) + text_ops(g.screen[g.row].cells[lead].contents) + attrs_ops(
                p.pen,
                g.screen[g.row].cells[lead].attrs,
            ),
        ) == Some(d),
        d == (CoreV { row: g.row, col: g.col, joinable: d.joinable, ..c }),
{
    let cells = g.screen[g.row].cells;
    let cell = cells[lead];
    let line = c.cells[g.row];
    assert(cells.len() == g.cols);
    assert(line == unlinked_row(cells));
    assert(line[lead] == unlinked(cell));
    let to = PosV { row: g.row, col: lead };
    let c1 = run_jump(from, p, c, to);
    let p1 = jumped(p, to);
    let c2 = run_pen(from, p1, c1, cell.attrs);
    let p2 = with_pen(p1, cell.attrs);
    put_same(line, lead);
    assert(!core_joins(c2, cell.contents[0]));
    run_text(from, p2.ops, c2, cell.contents, g.row, lead);
    let c3 = cluster_put(c2, cell.contents, g.row, lead);
    assert(c3.cells =~= c.cells);
    assert(cell_fits(cells, g.cols - 1));
    assert(c3.col == g.cols);
    let o3 = p2.ops + text_ops(cell.contents);
    attrs_run(c3, p.pen);
    core_run_concat(Some(from), o3, attrs_ops(p.pen, cell.attrs));
    assert(p.ops + seq![PaintOp::MoveTo(g.row, lead)] =~= p1.ops);
    CoreV { pen: p.pen, joinable: c3.joinable && p.pen == c3.pen, ..c3 }
}

/// The cursor restored on a blank cell, by a space that is erased from under
/// the saved cursor.
proof fn run_repark_blank(from: CoreV, p: PaintV, c: CoreV, g: GridV) -> (d: CoreV)
    requires
        leads(from, p, c),
        tracks(c, p),
        core_wf(c),
        c.modes.autowrap,
        grid_wf(g),
        c.rows == g.rows,
        c.cols == g.cols,
        c.cells == unlinked_rows(g.screen),
        g.col == g.cols,
        g.screen[g.row].cells[g.cols - 1].contents.len() == 0,
        !g.screen[g.row].cells[g.cols - 1].is_wide_continuation,
    ensures
        core_run(
            Some(from),
            p.ops + seq![PaintOp::MoveTo(g.row, g.cols - 1), PaintOp::Print(' ')] + attrs_ops(
                g.screen[g.row].cells[g.cols - 1].attrs,
                p.pen,
            ) + seq![PaintOp::Save, PaintOp::Back, PaintOp::EraseChars(1), PaintOp::Restore]
                + attrs_ops(p.pen, g.screen[g.row].cells[g.cols - 1].attrs),
        ) == Some(d),
        d == (CoreV { row: g.row, col: g.col, joinable: d.joinable, saved: d.saved, ..c }),
{
    let cells = g.screen[g.row].cells;
    let last = cells[g.cols - 1];
    let line = c.cells[g.row];
    assert(cells.len() == g.cols);
    assert(line == unlinked_row(cells));
    assert(line[g.cols - 1] == unlinked(last));
    assert(cell_fits(cells, g.cols - 1));
    let to = PosV { row: g.row, col: g.cols - 1 };
    let c1 = run_jump(from, p, c, to);
    let p1 = jumped(p, to);
    space_is_cluster();
    space_ops();
    run_text(from, p1.ops, c1, seq![' '], g.row, g.cols - 1);
    let c2 = cluster_put(c1, seq![' '], g.row, g.cols - 1);
    let o2 = p1.ops + text_ops(seq![' ']);
    let pens = attrs_ops(last.attrs, p.pen);
    attrs_run(c2, last.attrs);
    core_run_concat(Some(from), o2, pens);
    let c3 = CoreV { pen: last.attrs, joinable: c2.joinable && last.attrs == c2.pen, ..c2 };
    let o3 = o2 + pens;
    core_run_push(Some(from), o3, c3, PaintOp::Save);
    let c4 = core_step(c3, PaintOp::Save);
    let o4 = o3.push(PaintOp::Save);
    core_run_push(Some(from), o4, c4, PaintOp::Back);
    let c5 = core_step(c4, PaintOp::Back);
    let o5 = o4.push(PaintOp::Back);
    core_run_push(Some(from), o5, c5, PaintOp::EraseChars(1));
    let c6 = core_step(c5, PaintOp::EraseChars(1));
    let o6 = o5.push(PaintOp::EraseChars(1));
    core_run_push(Some(from), o6, c6, PaintOp::Restore);
    let c7 = core_step(c6, PaintOp::Restore);
    let o7 = o6.push(PaintOp::Restore);
    assert(core_blank(c5) == line[g.cols - 1]);
    space_erased(line, g.cols - 1, p.pen);
    assert(c7.cells =~= c.cells);
    attrs_run(c7, p.pen);
    core_run_concat(Some(from), o7, attrs_ops(p.pen, last.attrs));
    assert(p.ops + seq![PaintOp::MoveTo(g.row, g.cols - 1), PaintOp::Print(' ')] =~= o2);
    assert(o3 + seq![PaintOp::Save, PaintOp::Back, PaintOp::EraseChars(1), PaintOp::Restore]
        =~= o7);
    CoreV { pen: p.pen, joinable: c7.joinable && p.pen == c7.pen, ..c7 }
}

/// The cursor and the pen restored.
proof fn run_finish(from: CoreV, p: PaintV, c: CoreV, g: GridV) -> (d: CoreV)
    requires
        leads(from, p, c),
        tracks(c, p),
        core_wf(c),
        c.modes.autowrap,
        grid_wf(g),
        c.rows == g.rows,
        c.cols == g.cols,
        c.cells == unlinked_rows(g.screen),
    ensures
        core_run(Some(from), paint_finished(p, g)) == Some(d),
        d == (CoreV {
            row: g.row,
            col: g.col,
            pen: g.pen,
            joinable: d.joinable,
            saved: d.saved,
            ..c
        }),
{
    let cursor = PosV { row: g.row, col: g.col };
    let cells = g.screen[g.row].cells;
    assert(cells.len() == g.cols);
    let ops = cursor_restored(p, g);
    let c1 = if p.pos != cursor && g.col >= g.cols {
        let last = cells[g.cols - 1];
        let lead = if last.is_wide_continuation && g.cols >= 2 {
            g.cols - 2
        } else {
            g.cols - 1
        };
        assert(cell_fits(cells, g.cols - 1));
        assert(cell_fits(cells, lead));
        if cells[lead].contents.len() > 0 {
            run_repark(from, p, c, g, lead)
        } else {
            run_repark_blank(from, p, c, g)
        }
    } else if p.pos == cursor {
        assert(move_ops(p.pos, cursor) =~= Seq::empty());
        assert(ops =~= p.ops);
        c
    } else {
        move_run(c, cursor);
        core_run_concat(Some(from), p.ops, move_ops(p.pos, cursor));
        CoreV {
            row: g.row,
            col: g.col,
            joinable: c.joinable && cursor.row == c.row && cursor.col == c.col,
            ..c
        }
    };
    assert(core_run(Some(from), ops) == Some(c1));
    attrs_run(c1, g.pen);
    core_run_concat(Some(from), ops, attrs_ops(g.pen, p.pen));
    CoreV { pen: g.pen, joinable: c1.joinable && g.pen == c1.pen, ..c1 }
}

/// What painting a state leads to.
pub open spec fn shows(d: CoreV, c: CoreV, g: GridV) -> bool {
    d == (CoreV {
        cells: unlinked_rows(g.screen),
        row: g.row,
        col: g.col,
        disarmed: false,
        pen: g.pen,
        joinable: d.joinable,
        saved: d.saved,
        ..c
    })
}

/// A full paint makes any screen of the same dimensions show the state.
pub(crate) proof fn full_paint_run(c: CoreV, g: GridV) -> (d: CoreV)
    requires
        core_wf(CoreV { disarmed: false, ..c }),
        c.modes.autowrap,
        grid_wf(g),
        c.rows == g.rows,
        c.cols == g.cols,
    ensures
        core_run(Some(c), full_paint(g)) == Some(d),
        shows(d, c, g),
{
    let reset = PaintOp::Sgr(seq![]);
    assert(crate::ops::value_count(Seq::<Seq<u16>>::empty()) == 0);
    core_run_one(c, reset);
    let c1 = core_step(c, reset);
    let o1 = seq![reset];
    core_run_push(Some(c), o1, c1, PaintOp::MoveTo(0, 0));
    let c2 = core_step(c1, PaintOp::MoveTo(0, 0));
    let o2 = o1.push(PaintOp::MoveTo(0, 0));
    core_run_push(Some(c), o2, c2, PaintOp::EraseDisplay);
    let c3 = core_step(c2, PaintOp::EraseDisplay);
    let start = PaintV {
        ops: seq![PaintOp::Sgr(seq![]), PaintOp::MoveTo(0, 0), PaintOp::EraseDisplay],
        pos: PosV { row: 0, col: 0 },
        pen: plain_attrs(),
    };
    assert(start.ops =~= o2.push(PaintOp::EraseDisplay));
    assert(core_blank(c2) == blank_cell());
    blank_cells_wf(g.cols, blank_cell());
    assert(c.cells[0].len() == c.cols);
    assert(c3.cells[0] =~= blank_cells(g.cols, blank_cell()));
    assert forall|i: int| 0 <= i < g.rows implies #[trigger] c3.cells[i] == blank_cells(
        g.cols,
        blank_cell(),
    ) by {}
    let c4 = run_rows(c, start, c3, g, g.rows);
    let p = rows_painted(start, g, g.rows);
    assert(c4.cells =~= unlinked_rows(g.screen));
    run_finish(c, p, c4, g)
}

/// A repaint makes a screen that shows the previous state show the state.
pub(crate) proof fn repaint_run(c: CoreV, g: GridV, prev: GridV) -> (d: CoreV)
    requires
        core_wf(c),
        c.modes.autowrap,
        grid_wf(g),
        grid_wf(prev),
        c.rows == g.rows,
        c.cols == g.cols,
        prev.rows == g.rows,
        prev.cols == g.cols,
        c.cells == unlinked_rows(prev.screen),
        c.row == prev.row,
        c.col == prev.col,
        c.pen == prev.pen,
    ensures
        core_run(Some(c), repaint(g, prev)) == Some(d),
        shows(d, c, g),
{
    let start = PaintV {
        ops: seq![],
        pos: PosV { row: prev.row, col: prev.col },
        pen: prev.pen,
    };
    core_run_none(c);
    assert(leads(c, start, c));
    let c1 = run_rows_diff(c, start, c, g, prev, g.rows);
    let p = rows_repainted(start, g, prev, g.rows);
    assert(c1.cells =~= unlinked_rows(g.screen));
    run_finish(c, p, c1, g)
}

} // verus!
