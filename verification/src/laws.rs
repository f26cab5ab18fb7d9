//! What holds of a grid whatever it reads.

use crate::cell::{blank_cell, CellV};
use crate::damage::{covers, marked, marking_covers, marking_rows_covers, DirtySpans};
use crate::model::{
    cell_fits, cells_deleted, cells_inserted, cells_of, erased, put_cluster, repaired, row_used,
    row_wf, rows_unused_above, rows_used, RowV, RowWrap,
};
use crate::passthrough::PassV;
use crate::snapshot::spans_hold;
use crate::state::{
    apply, apply_all, at_least_one, csi, csi_edit, csi_move, csi_other, decrqm, delete_chars,
    edits_screen, enter_alternate, erase_display, first_of, grid_wf, insert_chars, join_col, joined,
    joins, kitty_resets, leave_alternate, least, line, mode_events, mode_status, monus,
    moves_cursor, newline, osc_event, param_at, placed, preserve, print, resized, restore_cursor,
    sat16, save_cursor, scroll_up, set_dec_mode, set_dec_modes, touched_from, touched_to, unparked,
    with_mode, EventV, GridV,
};
use crate::wellformed::{apply_all_keeps_wf, events_wf, newline_wf};
use crate::width::char_columns;
use vstd::prelude::*;

verus! {

// ── Damage ──────────────────────────────────────────────────────────────────

/// Whether `after` records every cell in which the screen of `after` differs
/// from that of `before`, and all that `before` recorded.
#[verifier::opaque]
pub open spec fn damage_recorded(before: GridV, after: GridV) -> bool {
    &&& forall|r: int, c: int|
        #![trigger covers(after.dirty, r, c)]
        covers(before.dirty, r, c) ==> covers(after.dirty, r, c)
    &&& forall|r: int, c: int|
        #![trigger after.screen[r].cells[c]]
        0 <= r < before.rows && 0 <= c < before.cols && after.screen[r].cells[c]
            != before.screen[r].cells[c] ==> covers(after.dirty, r, c)
}

/// An edit of the cursor's row whose range was marked is recorded.
proof fn row_edit_recorded(g: GridV, cells: Seq<CellV>, start: u16, end: u16, after: GridV)
    requires
        grid_wf(g),
        after.screen == crate::state::with_cells(g.screen, g.row, cells),
        after.dirty == marked(g.dirty, g.row as u16, start, end),
        forall|c: int|
            0 <= c < g.cols && (#[trigger] cells[c]) != line(g)[c] ==> start <= c < end,
    ensures
        damage_recorded(g, after),
{
    reveal(damage_recorded);
    marking_covers(g.dirty, g.row as u16, start, end);
    assert forall|r: int, c: int|
        #![trigger after.screen[r].cells[c]]
        0 <= r < g.rows && 0 <= c < g.cols && after.screen[r].cells[c]
            != g.screen[r].cells[c] implies covers(after.dirty, r, c) by {
        if r == g.row {
            assert(cells[c] != line(g)[c]);
            assert(covers(after.dirty, g.row as u16 as int, c));
        }
    }
}

proof fn placed_recorded(g: GridV, ch: char, w: int)
    requires
        grid_wf(g),
        g.col < g.cols,
        w == 1 || w == 2,
    ensures
        damage_recorded(g, placed(g, ch, w)),
{
    reveal(damage_recorded);
    let cells = line(g);
    let put = put_cluster(cells, g.col, seq![ch], w == 2, g.pen, g.link_id, g.link);
    row_edit_recorded(
        g,
        put,
        touched_from(cells, g.col) as u16,
        sat16(touched_to(cells, g.col + w)),
        placed(g, ch, w),
    );
}

proof fn joined_recorded(g: GridV, at: int, ch: char)
    requires
        grid_wf(g),
        0 <= at < g.cols,
        line(g)[at].contents.len() > 0,
    ensures
        damage_recorded(g, joined(g, at, ch)),
{
    reveal(damage_recorded);
    let cells = line(g);
    let old = cells[at];
    let text = old.contents.push(ch);
    let wide = old.is_wide || crate::width::cluster_columns(text) == 2;
    let put = put_cluster(cells, at, text, wide, old.attrs, old.hyperlink_id, old.hyperlink);
    assert(cell_fits(cells, at));
    if at + 1 < g.cols {
        assert(cell_fits(cells, at + 1));
    }
    row_edit_recorded(
        g,
        put,
        at as u16,
        sat16(touched_to(cells, at + 2)),
        joined(g, at, ch),
    );
}

proof fn scroll_up_recorded(g: GridV, n: int, wrap: RowWrap)
    requires
        grid_wf(g),
        n >= 1,
    ensures
        damage_recorded(g, scroll_up(g, n, wrap)),
{
    reveal(damage_recorded);
    marking_rows_covers(g.dirty, g.top, g.bottom);
    let after = scroll_up(g, n, wrap);
    assert forall|r: int, c: int|
        #![trigger after.screen[r].cells[c]]
        0 <= r < g.rows && 0 <= c < g.cols && after.screen[r].cells[c]
            != g.screen[r].cells[c] implies covers(after.dirty, r, c) by {
        assert(g.top <= r <= g.bottom);
    }
}

proof fn newline_recorded(g: GridV, wrap: RowWrap)
    requires
        grid_wf(g),
    ensures
        damage_recorded(g, newline(g, wrap)),
{
    reveal(damage_recorded);
    if g.row == g.bottom {
        scroll_up_recorded(g, 1, wrap);
    }
}

proof fn recorded_trans(a: GridV, b: GridV, c: GridV)
    requires
        damage_recorded(a, b),
        damage_recorded(b, c),
        a.rows == b.rows,
        a.cols == b.cols,
    ensures
        damage_recorded(a, c),
{
    reveal(damage_recorded);
    assert forall|r: int, k: int|
        #![trigger covers(c.dirty, r, k)]
        covers(a.dirty, r, k) implies covers(c.dirty, r, k) by {
        assert(covers(b.dirty, r, k));
    }
    assert forall|r: int, k: int|
        #![trigger c.screen[r].cells[k]]
        0 <= r < a.rows && 0 <= k < a.cols && c.screen[r].cells[k]
            != a.screen[r].cells[k] implies covers(c.dirty, r, k) by {
        if b.screen[r].cells[k] != a.screen[r].cells[k] {
            assert(covers(b.dirty, r, k));
        }
    }
}

proof fn print_recorded(g: GridV, ch: char)
    requires
        grid_wf(g),
    ensures
        damage_recorded(g, print(g, ch)),
{
    reveal(damage_recorded);
    let w = char_columns(ch);
    let g1 = GridV { mutated: true, joinable: true, ..g };
    if g.disarmed && g.modes.autowrap {
    } else if joins(g, ch) {
        joined_recorded(g1, join_col(g), ch);
    } else if w == 0 {
    } else if g.col >= g.cols && g.modes.autowrap {
        let g2 = GridV { col: 0, ..g1 };
        newline_recorded(g2, RowWrap::Soft);
        newline_wf(g2, RowWrap::Soft);
        let g3 = newline(g2, RowWrap::Soft);
        placed_recorded(g3, ch, w);
        recorded_trans(g2, g3, placed(g3, ch, w));
    } else if !g.modes.autowrap && least(g.col, g.cols - 1) + w > g.cols {
    } else {
        placed_recorded(
            GridV { col: least(g.col, g.cols - 1), disarmed: false, ..g1 },
            ch,
            w,
        );
    }
}

proof fn csi_edit_recorded(g: GridV, p0: u16, action: char)
    requires
        grid_wf(g),
    ensures
        damage_recorded(g, csi_edit(g, p0, action)),
{
    reveal(damage_recorded);
    reveal(csi_edit);
    let n = at_least_one(p0);
    let cells = line(g);
    let after = csi_edit(g, p0, action);
    let blank = crate::state::erase_blank(g);
    let here = touched_from(cells, g.col);
    assert(cells.len() == g.cols && row_wf(cells));
    if action == '@' {
        insert_recorded(g, n);
    } else if action == 'J' {
    } else if action == 'K' {
        if p0 == 0 {
            row_edit_recorded(
                g,
                erased(cells, g.col, g.cols, blank),
                here as u16,
                g.cols as u16,
                after,
            );
        } else if p0 == 1 {
            let end = least(g.col, g.cols - 1) + 1;
            row_edit_recorded(
                g,
                erased(cells, 0, end, blank),
                0,
                touched_to(cells, end) as u16,
                after,
            );
        } else if p0 == 2 {
            row_edit_recorded(
                g,
                crate::model::blank_cells(g.cols, blank),
                0,
                u16::MAX,
                after,
            );
        }
    } else if action == 'L' || action == 'M' || action == 'T' {
    } else if action == 'P' {
        delete_recorded(g, n);
    } else if action == 'S' {
        scroll_up_recorded(g, n, RowWrap::Hard);
    } else {
        let end = least(g.col + n, g.cols);
        row_edit_recorded(
            g,
            erased(cells, g.col, end, blank),
            here as u16,
            touched_to(cells, end) as u16,
            after,
        );
    }
}

proof fn insert_recorded(g: GridV, n: int)
    requires
        grid_wf(g),
        n >= 1,
    ensures
        damage_recorded(g, insert_chars(g, n)),
{
    reveal(damage_recorded);
    let cells = line(g);
    let moved = cells_inserted(cells, g.col, n);
    let done = repaired(moved);
    let from = touched_from(cells, g.col);
    assert(row_wf(cells));
    if g.col < g.cols {
        assert forall|c: int| 0 <= c < g.cols && (#[trigger] done[c]) != cells[c] implies from
            <= c by {
            if c < from {
                assert(cell_fits(cells, c));
                assert(cell_fits(cells, c + 1));
            }
        }
        row_edit_recorded(g, done, from as u16, g.cols as u16, insert_chars(g, n));
    }
}

proof fn delete_recorded(g: GridV, n: int)
    requires
        grid_wf(g),
        n >= 1,
    ensures
        damage_recorded(g, delete_chars(g, n)),
{
    reveal(damage_recorded);
    let cells = line(g);
    let cut = erased(cells, g.col, least(g.col + n, g.cols), blank_cell());
    let moved = cells_deleted(cut, g.col, n);
    let done = repaired(moved);
    let at = least(g.col, monus(g.cols, n));
    let from = touched_from(cells, at);
    assert(row_wf(cells));
    assert forall|c: int| 0 <= c < g.cols && (#[trigger] done[c]) != cells[c] implies from <= c by {
        if c < from {
            assert(cell_fits(cells, c));
            assert(cell_fits(cells, c + 1));
            assert(cell_fits(cells, at));
        }
    }
    row_edit_recorded(g, done, from as u16, g.cols as u16, delete_chars(g, n));
}

proof fn dec_modes_recorded(g: GridV, params: Seq<Seq<u16>>, on: bool)
    requires
        grid_wf(g),
    ensures
        damage_recorded(g, set_dec_modes(g, params, on)),
    decreases params.len(),
{
    reveal(damage_recorded);
    if params.len() > 0 {
        let rest = params.drop_last();
        dec_modes_recorded(g, rest, on);
        crate::wellformed::set_dec_modes_wf(g, rest, on);
        let h = set_dec_modes(g, rest, on);
        let mode = first_of(params.last());
        dec_mode_recorded(h, mode, on);
        recorded_trans(g, h, set_dec_mode(h, mode, on));
    }
}

proof fn dec_mode_recorded(g: GridV, mode: u16, on: bool)
    ensures
        damage_recorded(g, set_dec_mode(g, mode, on)),
{
    reveal(damage_recorded);
    reveal(set_dec_mode);
}

proof fn csi_recorded(g: GridV, params: Seq<Seq<u16>>, intermediates: Seq<u8>, action: char)
    requires
        grid_wf(g),
    ensures
        damage_recorded(g, csi(g, params, intermediates, action)),
{
    reveal(damage_recorded);
    if moves_cursor(action) {
        reveal(csi_move);
    } else if edits_screen(action) {
        csi_edit_recorded(g, param_at(params, 0), action);
    } else {
        dec_modes_recorded(g, params, true);
        dec_modes_recorded(g, params, false);
        other_recorded(g, params, intermediates, action);
    }
}

proof fn other_recorded(g: GridV, params: Seq<Seq<u16>>, intermediates: Seq<u8>, action: char)
    requires
        damage_recorded(g, set_dec_modes(g, params, true)),
        damage_recorded(g, set_dec_modes(g, params, false)),
    ensures
        damage_recorded(g, csi_other(g, params, intermediates, action)),
{
    reveal(damage_recorded);
    reveal(csi_other);
}

/// Where nothing changes there is nothing to record.
pub proof fn unchanged_is_recorded(g: GridV)
    ensures
        damage_recorded(g, g),
{
    reveal(damage_recorded);
}

/// Every event records the damage that it does: each visible cell that it
/// changes is covered by the record afterwards, and nothing recorded before is
/// forgotten.
pub proof fn damage_covers_changes(g: GridV, event: EventV)
    requires
        grid_wf(g),
    ensures
        damage_recorded(g, apply(g, event)),
{
    reveal(damage_recorded);
    match event {
        EventV::Print(ch) => {
            print_recorded(g, ch);
        },
        EventV::Execute(byte) => {
            newline_recorded(unparked(g), RowWrap::Hard);
        },
        EventV::Csi { params, intermediates, action } => {
            csi_recorded(g, params, intermediates, action);
        },
        EventV::Esc { byte } => {},
        EventV::Osc { params, bell } => {
            reveal(osc_event);
        },
    }
}

/// Whatever a grid reads between two drains of its dirty spans, the record at
/// the second drain covers every visible cell that changed.
pub proof fn damage_covers_runs(g: GridV, events: Seq<EventV>)
    requires
        grid_wf(g),
        events_wf(events),
    ensures
        damage_recorded(g, apply_all(g, events)),
    decreases events.len(),
{
    if events.len() == 0 {
        unchanged_is_recorded(g);
    } else {
        let rest = events.drop_last();
        damage_covers_runs(g, rest);
        assert(events_wf(rest));
        apply_all_keeps_wf(g, rest);
        let h = apply_all(g, rest);
        damage_covers_changes(h, events.last());
        recorded_trans(g, h, apply(h, events.last()));
    }
}

/// What a drain of the dirty spans hands out reports every change since the
/// drain before: each visible cell that differs lies on a row that is listed,
/// in the listed columns, unless everything is reported.
pub proof fn drained_spans_report_changes(
    before: GridV,
    after: GridV,
    drained: DirtySpans,
    r: int,
    c: int,
)
    requires
        damage_recorded(before, after),
        drained@ == after.dirty,
        0 <= r < before.rows,
        0 <= c < before.cols,
        after.screen[r].cells[c] != before.screen[r].cells[c],
    ensures
        match drained {
            DirtySpans::All => true,
            DirtySpans::Rows(rows) => spans_hold(rows@, r, c),
        },
{
    reveal(damage_recorded);
    assert(covers(after.dirty, r, c));
}

// ── Passthrough ─────────────────────────────────────────────────────────────

/// Whether the events queued by `after` are those of `before` and then more.
pub open spec fn queue_extends(before: GridV, after: GridV) -> bool {
    &&& before.events.len() <= after.events.len()
    &&& after.events.take(before.events.len() as int) == before.events
}

/// Whether an event is a CSI sequence that goes to the outer terminal.
pub open spec fn is_forwarded_csi(event: PassV) -> bool {
    event is UnhandledCsi
}

/// Whether no CSI sequence was queued for the outer terminal.
pub open spec fn forwards_nothing(before: GridV, after: GridV) -> bool {
    forall|i: int|
        before.events.len() <= i < after.events.len() ==> !is_forwarded_csi(
            #[trigger] after.events[i],
        )
}

/// The CSI sequences on the forward list: kitty keyboard push and pop, and
/// xterm modifyOtherKeys.
pub open spec fn is_allowlisted(params: Seq<Seq<u16>>, intermediates: Seq<u8>, action: char) -> bool {
    ||| action == 'u' && (intermediates == seq![0x3eu8] || intermediates == seq![0x3cu8])
    ||| action == 'm' && intermediates == seq![0x3eu8] && param_at(params, 0) == 4
}

/// Whether a CSI sequence resets DEC private modes: leaving the alternate
/// screen resets the keyboard levels that were pushed.
pub open spec fn resets_modes(intermediates: Seq<u8>, action: char) -> bool {
    action == 'l' && intermediates == seq![0x3fu8]
}

proof fn queue_trans(a: GridV, b: GridV, c: GridV)
    requires
        queue_extends(a, b),
        queue_extends(b, c),
    ensures
        queue_extends(a, c),
{
    assert(c.events.take(a.events.len() as int) =~= c.events.take(b.events.len() as int).take(
        a.events.len() as int,
    ));
}

proof fn emit_extends(g: GridV, event: PassV)
    ensures
        g.events.push(event).take(g.events.len() as int) == g.events,
{
    assert(g.events.push(event).take(g.events.len() as int) =~= g.events);
}

proof fn same_queue(g: GridV)
    ensures
        g.events.take(g.events.len() as int) == g.events,
{
    assert(g.events.take(g.events.len() as int) =~= g.events);
}

proof fn dec_mode_queue(g: GridV, mode: u16, on: bool)
    ensures
        queue_extends(g, set_dec_mode(g, mode, on)),
        on ==> forwards_nothing(g, set_dec_mode(g, mode, on)),
{
    reveal(set_dec_mode);
    same_queue(g);
    let more = mode_events(mode, on);
    assert((g.events + more).take(g.events.len() as int) =~= g.events);
    let resets = kitty_resets(g.kitty.len());
    assert((g.events + resets).take(g.events.len() as int) =~= g.events);
}

proof fn dec_modes_queue(g: GridV, params: Seq<Seq<u16>>, on: bool)
    ensures
        queue_extends(g, set_dec_modes(g, params, on)),
        on ==> forwards_nothing(g, set_dec_modes(g, params, on)),
    decreases params.len(),
{
    same_queue(g);
    if params.len() > 0 {
        let rest = params.drop_last();
        dec_modes_queue(g, rest, on);
        let h = set_dec_modes(g, rest, on);
        let done = set_dec_modes(g, params, on);
        dec_mode_queue(h, first_of(params.last()), on);
        queue_trans(g, h, done);
        if on {
            assert forall|i: int| g.events.len() <= i < done.events.len() implies !is_forwarded_csi(
                #[trigger] done.events[i],
            ) by {
                if i < h.events.len() {
                    assert(done.events.take(h.events.len() as int)[i] == h.events[i]);
                }
            }
        }
    }
}

proof fn csi_queue(g: GridV, params: Seq<Seq<u16>>, intermediates: Seq<u8>, action: char)
    ensures
        queue_extends(g, csi(g, params, intermediates, action)),
        !is_allowlisted(params, intermediates, action) && !resets_modes(intermediates, action)
            ==> forwards_nothing(g, csi(g, params, intermediates, action)),
{
    same_queue(g);
    assert forall|e: PassV| #[trigger] g.events.push(e).take(g.events.len() as int)
        == g.events by {
        emit_extends(g, e);
    }
    if moves_cursor(action) {
        reveal(csi_move);
    } else if edits_screen(action) {
        reveal(csi_edit);
    } else {
        dec_modes_queue(g, params, true);
        dec_modes_queue(g, params, false);
        other_queue(g, params, intermediates, action);
    }
}

proof fn other_queue(g: GridV, params: Seq<Seq<u16>>, intermediates: Seq<u8>, action: char)
    requires
        queue_extends(g, set_dec_modes(g, params, true)),
        forwards_nothing(g, set_dec_modes(g, params, true)),
        queue_extends(g, set_dec_modes(g, params, false)),
    ensures
        queue_extends(g, csi_other(g, params, intermediates, action)),
        !is_allowlisted(params, intermediates, action) && !resets_modes(intermediates, action)
            ==> forwards_nothing(g, csi_other(g, params, intermediates, action)),
{
    reveal(csi_other);
    same_queue(g);
    assert forall|e: PassV| #[trigger] g.events.push(e).take(g.events.len() as int)
        == g.events by {
        emit_extends(g, e);
    }
}

/// Default-deny: a CSI sequence outside the forward list, other than one that
/// resets modes, queues nothing for the outer terminal.
pub proof fn csi_is_denied_by_default(
    g: GridV,
    params: Seq<Seq<u16>>,
    intermediates: Seq<u8>,
    action: char,
)
    requires
        !is_allowlisted(params, intermediates, action),
        !resets_modes(intermediates, action),
    ensures
        forwards_nothing(g, apply(g, EventV::Csi { params, intermediates, action })),
{
    csi_queue(g, params, intermediates, action);
}

/// Passthrough events keep their order: what an event queues comes behind what
/// was queued before.
pub proof fn passthrough_keeps_order(g: GridV, event: EventV)
    ensures
        queue_extends(g, apply(g, event)),
{
    same_queue(g);
    assert forall|e: PassV| #[trigger] g.events.push(e).take(g.events.len() as int)
        == g.events by {
        emit_extends(g, e);
    }
    match event {
        EventV::Csi { params, intermediates, action } => {
            csi_queue(g, params, intermediates, action);
        },
        EventV::Osc { params, bell } => {
            reveal(osc_event);
        },
        _ => {},
    }
}

// ── Scrollback retention ────────────────────────────────────────────────────

proof fn blank_rows_unused(screen: Seq<RowV>)
    requires
        forall|i: int| 0 <= i < screen.len() ==> !row_used((#[trigger] screen[i]).cells),
    ensures
        rows_used(screen) == 0,
    decreases screen.len(),
{
    if screen.len() > 0 {
        blank_rows_unused(screen.drop_last());
    }
}

/// A screen is preserved exactly once: a second clear with nothing written in
/// between keeps nothing more.
pub proof fn clear_preserves_once(g: GridV)
    requires
        grid_wf(g),
    ensures
        preserve(preserve(g)) == preserve(g),
        erase_display(erase_display(g, 2), 2).scrollback == erase_display(g, 2).scrollback,
{
    let cleared = erase_display(g, 2);
    assert forall|i: int| 0 <= i < cleared.screen.len() implies !row_used(
        (#[trigger] cleared.screen[i]).cells,
    ) by {}
    blank_rows_unused(cleared.screen);
}

/// A clear that finds the block it kept last keeps nothing more.
pub proof fn clear_dedupes_equal_block(g: GridV)
    requires
        g.preserved == Some(
            cells_of(g.screen.subrange(rows_unused_above(g.screen), rows_used(g.screen))),
        ),
    ensures
        preserve(g).scrollback == g.scrollback,
        erase_display(g, 2).scrollback == g.scrollback,
{
}

// ── Modes and cursor ────────────────────────────────────────────────────────

/// Whether the grid keeps a DEC private mode of that number.
pub open spec fn is_kept_mode(mode: u16) -> bool {
    mode == 1 || mode == 7 || mode == 12 || mode == 25 || mode == 47 || mode == 1000 || mode == 1002
        || mode == 1003 || mode == 1004 || mode == 1005 || mode == 1006 || mode == 1015 || mode
        == 1047 || mode == 1049 || mode == 2004 || mode == 2026
}

/// DECRQM tells what a mode was last switched to, and declines every mode that
/// is not kept, grapheme-cluster width (2027) among them.
pub proof fn decrqm_reflects_switch(g: GridV, mode: u16, on: bool)
    ensures
        is_kept_mode(mode) ==> decrqm(set_dec_mode(g, mode, on), mode) == mode_status(on),
        !is_kept_mode(mode) ==> decrqm(g, mode) == 0,
        decrqm(g, 2027) == 0,
{
    reveal(set_dec_mode);
    reveal(with_mode);
}

/// Saving and restoring the cursor brings it back, parked if it was parked with
/// a wrap pending.
pub proof fn saved_cursor_round_trips(g: GridV, row: int, col: int)
    requires
        grid_wf(g),
        !g.disarmed,
    ensures
        ({
            let back = restore_cursor(GridV { row, col, ..save_cursor(g) });
            back.row == g.row && back.col == g.col && !back.disarmed
        }),
{
}

/// Entering and leaving the alternate screen brings the primary screen and the
/// cursor back; one that was parked without a pending wrap comes back on the
/// last column.
pub proof fn alternate_screen_round_trips(g: GridV)
    requires
        grid_wf(g),
        !g.alt,
    ensures
        ({
            let back = leave_alternate(enter_alternate(g));
            &&& back.screen == g.screen
            &&& !back.alt
            &&& back.row == g.row
            &&& back.col == if g.disarmed {
                g.cols - 1
            } else {
                g.col
            }
        }),
{
}

proof fn modes_keep_hidden(g: GridV, params: Seq<Seq<u16>>, on: bool)
    requires
        g.alt,
    ensures
        set_dec_modes(g, params, on).scrollback == g.scrollback,
        on ==> set_dec_modes(g, params, on).alt && set_dec_modes(g, params, on).hidden == g.hidden,
        !on ==> ({
            let h = set_dec_modes(g, params, on);
            if h.alt {
                h.hidden == g.hidden
            } else {
                h.screen == g.hidden
            }
        }),
    decreases params.len(),
{
    reveal(set_dec_mode);
    if params.len() > 0 {
        modes_keep_hidden(g, params.drop_last(), on);
    }
}

/// The alternate screen stands apart: while it is shown, no event changes the
/// primary screen, which comes back as it was unless by a full reset, and no
/// event adds to the scrollback, which only an explicit clear (ED 3) touches.
pub proof fn alternate_screen_is_apart(g: GridV, event: EventV)
    requires
        g.alt,
    ensures
        apply(g, event).alt ==> apply(g, event).hidden == g.hidden,
        !apply(g, event).alt ==> event == (EventV::Esc { byte: 0x63 }) || apply(g, event).screen
            == g.hidden,
        apply(g, event).scrollback == g.scrollback || apply(g, event).scrollback.len() == 0 && (
        event matches EventV::Csi { params, action, .. } && action == 'J' && param_at(params, 0)
            == 3),
{
    match event {
        EventV::Csi { params, intermediates, action } => {
            reveal(csi_move);
            reveal(csi_edit);
            reveal(csi_other);
            modes_keep_hidden(g, params, true);
            modes_keep_hidden(g, params, false);
        },
        EventV::Osc { params, bell } => {
            reveal(osc_event);
        },
        _ => {},
    }
}

/// Whether the alternate screen is shown throughout a run of events.
pub open spec fn stays_alternate(g: GridV, events: Seq<EventV>) -> bool {
    forall|n: int| 0 <= n <= events.len() ==> (#[trigger] apply_all(g, events.take(n))).alt
}

/// Whatever a program does on the alternate screen, leaving it brings the
/// primary screen back.
pub proof fn primary_screen_survives(g: GridV, events: Seq<EventV>)
    requires
        !g.alt,
        stays_alternate(enter_alternate(g), events),
    ensures
        apply_all(enter_alternate(g), events).hidden == g.screen,
        leave_alternate(apply_all(enter_alternate(g), events)).screen == g.screen,
    decreases events.len(),
{
    let inside = enter_alternate(g);
    assert(events.take(events.len() as int) =~= events);
    if events.len() > 0 {
        let rest = events.drop_last();
        assert forall|n: int| 0 <= n <= rest.len() implies (#[trigger] apply_all(
            inside,
            rest.take(n),
        )).alt by {
            assert(rest.take(n) =~= events.take(n));
        }
        assert(rest.take(rest.len() as int) =~= rest);
        primary_screen_survives(g, rest);
        alternate_screen_is_apart(apply_all(inside, rest), events.last());
    }
}

/// Resizing keeps every cell that fits, and how its row wraps.
pub proof fn resize_keeps_content(g: GridV, rows: int, cols: int, r: int, c: int)
    requires
        grid_wf(g),
        1 <= rows <= u16::MAX,
        1 <= cols <= u16::MAX,
        0 <= r < rows && r < g.rows,
        0 <= c < cols && c < g.cols,
    ensures
        resized(g, rows, cols).screen[r].cells[c] == g.screen[r].cells[c],
        resized(g, rows, cols).screen[r].wrap == g.screen[r].wrap,
{
}

} // verus!
