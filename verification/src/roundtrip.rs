//! The replay contract: what is written out of a state reproduces it.

use crate::canvas::{
    apply_all_concat, core_of, core_run, core_run_concat, core_run_follows, core_run_none,
    core_run_one, core_step, unlinked_rows, whole_region, CoreV,
};
use crate::ops::{paint_event, paint_events, paint_wf, paints_wf, PaintOp};
use crate::paint::{
    autowrap_off, contents_diff_ops, contents_ops, diffable, exclusive_mode_ops, full_paint,
    input_mode_diff_ops, input_mode_ops, keypad_diff_ops, mode_diff_ops, repaint, same_cells,
    same_input_modes, same_picture, same_state, state_diff_ops, state_ops, style_diff_ops,
    unlinked_row,
};
use crate::replay::core_wf;
use crate::reproduce::{full_paint_run, repaint_run, shows};
use crate::state::{
    apply, apply_all, csi_other, first_of, fresh, grid_wf, mouse_encoding_of, mouse_mode_of,
    set_dec_mode, set_dec_modes, with_mode, EventV, GridV, Modes, MouseProtocolEncoding,
    MouseProtocolMode,
};
use crate::wellformed::{apply_keeps_wf, fresh_wf};
use vstd::prelude::*;

verus! {

/// The state after the steps are replayed on `g`.
#[verifier::opaque]
pub open spec fn replayed(g: GridV, ops: Seq<PaintOp>) -> GridV {
    apply_all(g, paint_events(ops))
}

/// Replaying steps is replaying the first ones and then the others.
pub(crate) proof fn replayed_concat(g: GridV, a: Seq<PaintOp>, b: Seq<PaintOp>)
    ensures
        replayed(g, a + b) == replayed(replayed(g, a), b),
{
    reveal(replayed);
    assert(paint_events(a + b) =~= paint_events(a) + paint_events(b));
    apply_all_concat(g, paint_events(a), paint_events(b));
}

proof fn replayed_none(g: GridV)
    ensures
        replayed(g, Seq::empty()) == g,
{
    reveal(replayed);
    assert(paint_events(Seq::<PaintOp>::empty()) =~= Seq::<EventV>::empty());
}

proof fn replayed_one(g: GridV, op: PaintOp)
    ensures
        replayed(g, seq![op]) == apply(g, paint_event(op)),
{
    reveal(replayed);
    let events = paint_events(seq![op]);
    assert(events.len() == 1);
    assert(events.drop_last() =~= Seq::<EventV>::empty());
    assert(apply_all(g, events.drop_last()) == g);
    assert(events.last() == paint_event(op));
}

/// A hyperlink is no part of what makes a row well-formed.
proof fn unlinked_row_wf(cells: Seq<crate::cell::CellV>)
    requires
        crate::model::row_wf(cells),
    ensures
        crate::model::row_wf(unlinked_row(cells)),
{
    let plain = unlinked_row(cells);
    assert forall|i: int| 0 <= i < plain.len() implies #[trigger] crate::model::cell_fits(
        plain,
        i,
    ) by {
        assert(crate::model::cell_fits(cells, i));
    }
}

/// The core of a well-formed state is well-formed.
pub(crate) proof fn core_of_wf(g: GridV)
    requires
        grid_wf(g),
    ensures
        core_wf(CoreV { disarmed: false, ..core_of(g) }),
{
    let c = core_of(g);
    assert forall|i: int| 0 <= i < c.rows implies (#[trigger] c.cells[i]).len() == c.cols
        && crate::model::row_wf(c.cells[i]) by {
        assert(g.screen[i].cells.len() == g.cols);
        unlinked_row_wf(g.screen[i].cells);
    }
}

proof fn same_cells_by_core(a: GridV, b: GridV)
    requires
        grid_wf(a),
        grid_wf(b),
    ensures
        same_cells(a, b) == (unlinked_rows(a.screen) == unlinked_rows(b.screen)),
{
    let x = unlinked_rows(a.screen);
    let y = unlinked_rows(b.screen);
    if same_cells(a, b) {
        assert forall|i: int| 0 <= i < x.len() implies x[i] == y[i] by {
            assert(unlinked_row(a.screen[i].cells) == unlinked_row(b.screen[i].cells));
        }
        assert(x =~= y);
    }
    if x == y {
        assert(x.len() == y.len());
        assert forall|i: int| 0 <= i < a.screen.len() implies unlinked_row(
            (#[trigger] a.screen[i]).cells,
        ) == unlinked_row(b.screen[i].cells) by {
            assert(x[i] == y[i]);
        }
    }
}

// ── Modes ───────────────────────────────────────────────────────────────────

/// Whether two cores differ at most in the modes.
pub open spec fn only_modes(d: CoreV, c: CoreV) -> bool {
    d == (CoreV { modes: d.modes, joinable: d.joinable, ..c })
}

/// The modes after a step that sets one.
spec fn setting(m: Modes, op: PaintOp) -> Modes {
    match op {
        PaintOp::Mode(mode, on) => with_mode(m, mode, on),
        PaintOp::Style(style) => Modes { cursor_style: style, ..m },
        PaintOp::Keypad(on) => Modes { keypad: on, ..m },
        _ => m,
    }
}

/// What the modes with a switch of their own become.
proof fn switches(m: Modes, on: bool)
    ensures
        with_mode(m, 7, on) == (Modes { autowrap: on, ..m }),
        with_mode(m, 1, on) == (Modes { app_cursor: on, ..m }),
        with_mode(m, 2004, on) == (Modes { paste: on, ..m }),
        with_mode(m, 25, on) == (Modes { hide_cursor: !on, ..m }),
{
    reveal(with_mode);
}

/// What a mouse mode, given by its number, becomes.
proof fn mouse_switch(m: Modes, mode: MouseProtocolMode, on: bool)
    requires
        mode != MouseProtocolMode::Off,
    ensures
        with_mode(m, mouse_mode_of(mode), on) == (Modes {
            mouse_mode: with_mode(m, mouse_mode_of(mode), on).mouse_mode,
            ..m
        }),
        mouse_mode_of(with_mode(m, mouse_mode_of(mode), on).mouse_mode) == (if on {
            mouse_mode_of(mode)
        } else {
            0
        }),
{
    reveal(with_mode);
}

/// What a mouse encoding, given by its number, becomes.
proof fn encoding_switch(m: Modes, encoding: MouseProtocolEncoding, on: bool)
    requires
        encoding != MouseProtocolEncoding::Default,
    ensures
        with_mode(m, mouse_encoding_of(encoding), on) == (Modes {
            mouse_encoding: with_mode(m, mouse_encoding_of(encoding), on).mouse_encoding,
            ..m
        }),
        mouse_encoding_of(with_mode(m, mouse_encoding_of(encoding), on).mouse_encoding) == (if on {
            mouse_encoding_of(encoding)
        } else {
            0
        }),
{
    reveal(with_mode);
}

/// One more step that sets a mode.
proof fn run_setting(from: CoreV, ops: Seq<PaintOp>, c: CoreV, op: PaintOp) -> (d: CoreV)
    requires
        core_run(Some(from), ops) == Some(c),
        only_modes(c, from),
        op is Mode || op is Style || op is Keypad,
        op matches PaintOp::Mode(mode, on) ==> mode != 47 && mode != 1047 && mode != 1049,
    ensures
        core_run(Some(from), ops + seq![op]) == Some(d),
        only_modes(d, from),
        d.modes == setting(c.modes, op),
        !d.joinable,
{
    core_run_one(c, op);
    core_run_concat(Some(from), ops, seq![op]);
    core_step(c, op)
}

/// More steps that turn one mouse mode into another.
proof fn run_mouse(
    from: CoreV,
    ops: Seq<PaintOp>,
    c: CoreV,
    now: MouseProtocolMode,
    prev: MouseProtocolMode,
) -> (d: CoreV)
    requires
        core_run(Some(from), ops) == Some(c),
        only_modes(c, from),
        mouse_mode_of(c.modes.mouse_mode) == mouse_mode_of(prev),
    ensures
        core_run(
            Some(from),
            ops + exclusive_mode_ops(mouse_mode_of(now), mouse_mode_of(prev)),
        ) == Some(d),
        only_modes(d, from),
        d.modes == (Modes { mouse_mode: d.modes.mouse_mode, ..c.modes }),
        mouse_mode_of(d.modes.mouse_mode) == mouse_mode_of(now),
{
    reveal(exclusive_mode_ops);
    let mode = mouse_mode_of(now);
    let old = mouse_mode_of(prev);
    if mode == old {
        assert(ops + exclusive_mode_ops(mode, old) =~= ops);
        c
    } else if mode == 0 {
        mouse_switch(c.modes, prev, false);
        run_setting(from, ops, c, PaintOp::Mode(old, false))
    } else {
        mouse_switch(c.modes, now, true);
        run_setting(from, ops, c, PaintOp::Mode(mode, true))
    }
}

/// More steps that turn one mouse encoding into another.
proof fn run_encoding(
    from: CoreV,
    ops: Seq<PaintOp>,
    c: CoreV,
    now: MouseProtocolEncoding,
    prev: MouseProtocolEncoding,
) -> (d: CoreV)
    requires
        core_run(Some(from), ops) == Some(c),
        only_modes(c, from),
        mouse_encoding_of(c.modes.mouse_encoding) == mouse_encoding_of(prev),
    ensures
        core_run(
            Some(from),
            ops + exclusive_mode_ops(mouse_encoding_of(now), mouse_encoding_of(prev)),
        ) == Some(d),
        only_modes(d, from),
        d.modes == (Modes { mouse_encoding: d.modes.mouse_encoding, ..c.modes }),
        mouse_encoding_of(d.modes.mouse_encoding) == mouse_encoding_of(now),
{
    reveal(exclusive_mode_ops);
    let mode = mouse_encoding_of(now);
    let old = mouse_encoding_of(prev);
    if mode == old {
        assert(ops + exclusive_mode_ops(mode, old) =~= ops);
        c
    } else if mode == 0 {
        encoding_switch(c.modes, prev, false);
        run_setting(from, ops, c, PaintOp::Mode(old, false))
    } else {
        encoding_switch(c.modes, now, true);
        run_setting(from, ops, c, PaintOp::Mode(mode, true))
    }
}

/// One more step that sets a mode, if it differs.
proof fn run_mode_diff(
    from: CoreV,
    ops: Seq<PaintOp>,
    c: CoreV,
    mode: u16,
    now: bool,
    prev: bool,
) -> (d: CoreV)
    requires
        core_run(Some(from), ops) == Some(c),
        only_modes(c, from),
        mode != 47 && mode != 1047 && mode != 1049,
    ensures
        core_run(Some(from), ops + mode_diff_ops(mode, now, prev)) == Some(d),
        only_modes(d, from),
        d.modes == (if now != prev {
            with_mode(c.modes, mode, now)
        } else {
            c.modes
        }),
{
    reveal(mode_diff_ops);
    if now != prev {
        run_setting(from, ops, c, PaintOp::Mode(mode, now))
    } else {
        assert(ops + mode_diff_ops(mode, now, prev) =~= ops);
        c
    }
}

/// Whether the modes that are set before the screen is switched are those of
/// `g`.
pub open spec fn early_modes(m: Modes, g: GridV) -> bool {
    &&& m.autowrap == g.modes.autowrap
    &&& m.keypad == g.modes.keypad
    &&& m.app_cursor == g.modes.app_cursor
    &&& m.paste == g.modes.paste
    &&& mouse_mode_of(m.mouse_mode) == mouse_mode_of(g.modes.mouse_mode)
    &&& mouse_encoding_of(m.mouse_encoding) == mouse_encoding_of(g.modes.mouse_encoding)
}

/// The steps before the one that switches the screen.
pub open spec fn early_mode_ops(g: GridV) -> Seq<PaintOp> {
    seq![
        PaintOp::Mode(7, g.modes.autowrap),
        PaintOp::Keypad(g.modes.keypad),
        PaintOp::Mode(1, g.modes.app_cursor),
        PaintOp::Mode(2004, g.modes.paste),
    ] + exclusive_mode_ops(mouse_mode_of(g.modes.mouse_mode), 0) + exclusive_mode_ops(
        mouse_encoding_of(g.modes.mouse_encoding),
        0,
    )
}

proof fn assoc(a: Seq<PaintOp>, b: Seq<PaintOp>, c: Seq<PaintOp>)
    ensures
        a + b + c == a + (b + c),
{
    assert(a + b + c =~= a + (b + c));
}

/// The first four of the steps.
proof fn first_modes_run(c: CoreV, g: GridV) -> (d: CoreV)
    ensures
        core_run(
            Some(c),
            seq![
                PaintOp::Mode(7, g.modes.autowrap),
                PaintOp::Keypad(g.modes.keypad),
                PaintOp::Mode(1, g.modes.app_cursor),
                PaintOp::Mode(2004, g.modes.paste),
            ],
        ) == Some(d),
        only_modes(d, c),
        d.modes == (Modes {
            autowrap: g.modes.autowrap,
            keypad: g.modes.keypad,
            app_cursor: g.modes.app_cursor,
            paste: g.modes.paste,
            ..c.modes
        }),
{
    core_run_none(c);
    let o0 = Seq::<PaintOp>::empty();
    let s1 = PaintOp::Mode(7, g.modes.autowrap);
    let s2 = PaintOp::Keypad(g.modes.keypad);
    let s3 = PaintOp::Mode(1, g.modes.app_cursor);
    let s4 = PaintOp::Mode(2004, g.modes.paste);
    let c1 = run_setting(c, o0, c, s1);
    let o1 = o0 + seq![s1];
    let c2 = run_setting(c, o1, c1, s2);
    let o2 = o1 + seq![s2];
    let c3 = run_setting(c, o2, c2, s3);
    let o3 = o2 + seq![s3];
    let c4 = run_setting(c, o3, c3, s4);
    let o4 = o3 + seq![s4];
    switches(c.modes, g.modes.autowrap);
    switches(c2.modes, g.modes.app_cursor);
    switches(c3.modes, g.modes.paste);
    assert(o4 =~= seq![s1, s2, s3, s4]);
    c4
}

proof fn early_modes_run(c: CoreV, g: GridV) -> (d: CoreV)
    requires
        mouse_mode_of(c.modes.mouse_mode) == 0,
        mouse_encoding_of(c.modes.mouse_encoding) == 0,
    ensures
        core_run(Some(c), early_mode_ops(g)) == Some(d),
        only_modes(d, c),
        early_modes(d.modes, g),
{
    let c4 = first_modes_run(c, g);
    let o4 = seq![
        PaintOp::Mode(7, g.modes.autowrap),
        PaintOp::Keypad(g.modes.keypad),
        PaintOp::Mode(1, g.modes.app_cursor),
        PaintOp::Mode(2004, g.modes.paste),
    ];
    let c5 = run_mouse(c, o4, c4, g.modes.mouse_mode, MouseProtocolMode::Off);
    let o5 = o4 + exclusive_mode_ops(mouse_mode_of(g.modes.mouse_mode), 0);
    run_encoding(c, o5, c5, g.modes.mouse_encoding, MouseProtocolEncoding::Default)
}

/// The first four difference steps.
spec fn first_diff_ops(g: GridV, prev: GridV) -> Seq<PaintOp> {
    mode_diff_ops(7, g.modes.autowrap, prev.modes.autowrap) + keypad_diff_ops(g, prev)
        + mode_diff_ops(1, g.modes.app_cursor, prev.modes.app_cursor) + mode_diff_ops(
        2004,
        g.modes.paste,
        prev.modes.paste,
    )
}

proof fn run_keypad_diff(from: CoreV, ops: Seq<PaintOp>, c: CoreV, g: GridV, prev: GridV) -> (d:
    CoreV)
    requires
        core_run(Some(from), ops) == Some(c),
        only_modes(c, from),
        c.modes.keypad == prev.modes.keypad,
    ensures
        core_run(Some(from), ops + keypad_diff_ops(g, prev)) == Some(d),
        only_modes(d, from),
        d.modes == (Modes { keypad: g.modes.keypad, ..c.modes }),
{
    reveal(keypad_diff_ops);
    if g.modes.keypad != prev.modes.keypad {
        run_setting(from, ops, c, PaintOp::Keypad(g.modes.keypad))
    } else {
        assert(ops + keypad_diff_ops(g, prev) =~= ops);
        c
    }
}

proof fn first_diff_run(c: CoreV, g: GridV, prev: GridV) -> (d: CoreV)
    requires
        early_modes(c.modes, prev),
    ensures
        core_run(Some(c), first_diff_ops(g, prev)) == Some(d),
        only_modes(d, c),
        d.modes == (Modes {
            autowrap: g.modes.autowrap,
            keypad: g.modes.keypad,
            app_cursor: g.modes.app_cursor,
            paste: g.modes.paste,
            ..c.modes
        }),
{
    core_run_none(c);
    let o0 = Seq::<PaintOp>::empty();
    let m1 = mode_diff_ops(7, g.modes.autowrap, prev.modes.autowrap);
    let c1 = run_mode_diff(c, o0, c, 7, g.modes.autowrap, prev.modes.autowrap);
    assert(o0 + m1 =~= m1);
    switches(c.modes, g.modes.autowrap);
    let c2 = run_keypad_diff(c, m1, c1, g, prev);
    let o2 = m1 + keypad_diff_ops(g, prev);
    let c3 = run_mode_diff(c, o2, c2, 1, g.modes.app_cursor, prev.modes.app_cursor);
    let o3 = o2 + mode_diff_ops(1, g.modes.app_cursor, prev.modes.app_cursor);
    let c4 = run_mode_diff(c, o3, c3, 2004, g.modes.paste, prev.modes.paste);
    switches(c2.modes, g.modes.app_cursor);
    switches(c3.modes, g.modes.paste);
    c4
}

/// The difference steps before the one that switches the screen.
spec fn early_diff_ops(g: GridV, prev: GridV) -> Seq<PaintOp> {
    first_diff_ops(g, prev) + exclusive_mode_ops(
        mouse_mode_of(g.modes.mouse_mode),
        mouse_mode_of(prev.modes.mouse_mode),
    ) + exclusive_mode_ops(
        mouse_encoding_of(g.modes.mouse_encoding),
        mouse_encoding_of(prev.modes.mouse_encoding),
    )
}

proof fn early_diff_run(c: CoreV, g: GridV, prev: GridV) -> (d: CoreV)
    requires
        early_modes(c.modes, prev),
    ensures
        core_run(Some(c), early_diff_ops(g, prev)) == Some(d),
        only_modes(d, c),
        early_modes(d.modes, g),
        d.modes.hide_cursor == c.modes.hide_cursor,
        d.modes.cursor_style == c.modes.cursor_style,
{
    let c4 = first_diff_run(c, g, prev);
    let o4 = first_diff_ops(g, prev);
    let c5 = run_mouse(c, o4, c4, g.modes.mouse_mode, prev.modes.mouse_mode);
    let o5 = o4 + exclusive_mode_ops(
        mouse_mode_of(g.modes.mouse_mode),
        mouse_mode_of(prev.modes.mouse_mode),
    );
    run_encoding(c, o5, c5, g.modes.mouse_encoding, prev.modes.mouse_encoding)
}

/// The step that switches the screen.
proof fn switch_step(g: GridV, on: bool)
    requires
        grid_wf(g),
        whole_region(g),
        g.alt != on,
    ensures
        ({
            let r = replayed(g, seq![PaintOp::Mode(1049, on)]);
            &&& grid_wf(r)
            &&& whole_region(r)
            &&& r.rows == g.rows
            &&& r.cols == g.cols
            &&& r.alt == on
            &&& r.modes == g.modes
            &&& !r.disarmed
        }),
{
    let op = PaintOp::Mode(1049, on);
    replayed_one(g, op);
    apply_keeps_wf(g, paint_event(op));
    reveal(csi_other);
    reveal(set_dec_mode);
    reveal_with_fuel(set_dec_modes, 2);
    let params = seq![seq![1049u16]];
    assert(params.drop_last() =~= Seq::<Seq<u16>>::empty());
    assert(first_of(params.last()) == 1049);
    assert(set_dec_modes(g, params, on) == set_dec_mode(g, 1049, on));
}

/// Whether replaying left everything but the modes as it was.
pub open spec fn picture_kept(r: GridV, g: GridV) -> bool {
    &&& unlinked_rows(r.screen) == unlinked_rows(g.screen)
    &&& r.row == g.row
    &&& r.col == g.col
    &&& r.disarmed == g.disarmed
    &&& r.pen == g.pen
}

/// The steps that change modes, replayed on a state.
proof fn settings_replay(g: GridV, ops: Seq<PaintOp>, d: CoreV)
    requires
        grid_wf(g),
        whole_region(g),
        core_run(Some(core_of(g)), ops) == Some(d),
        only_modes(d, core_of(g)),
    ensures
        grid_wf(replayed(g, ops)),
        whole_region(replayed(g, ops)),
        replayed(g, ops).rows == g.rows,
        replayed(g, ops).cols == g.cols,
        replayed(g, ops).alt == g.alt,
        replayed(g, ops).modes == d.modes,
        picture_kept(replayed(g, ops), g),
{
    reveal(replayed);
    core_run_follows(g, ops);
}

/// The steps after the one that switches the screen.
proof fn late_replay(g: GridV, ops: Seq<PaintOp>, hide: bool, style: u16)
    requires
        grid_wf(g),
        whole_region(g),
        ops == seq![PaintOp::Mode(25, !hide), PaintOp::Style(style)] || (ops == seq![
            PaintOp::Mode(25, !hide),
        ] && g.modes.cursor_style == style) || (ops == seq![PaintOp::Style(style)]
            && g.modes.hide_cursor == hide) || (ops == Seq::<PaintOp>::empty()
            && g.modes.hide_cursor == hide && g.modes.cursor_style == style),
    ensures
        grid_wf(replayed(g, ops)),
        whole_region(replayed(g, ops)),
        replayed(g, ops).rows == g.rows,
        replayed(g, ops).cols == g.cols,
        replayed(g, ops).alt == g.alt,
        replayed(g, ops).modes == (Modes { hide_cursor: hide, cursor_style: style, ..g.modes }),
        picture_kept(replayed(g, ops), g),
{
    let c = core_of(g);
    let none = Seq::<PaintOp>::empty();
    let s1 = PaintOp::Mode(25, !hide);
    let s2 = PaintOp::Style(style);
    core_run_none(c);
    switches(g.modes, !hide);
    if ops.len() == 2 {
        let c1 = run_setting(c, none, c, s1);
        let c2 = run_setting(c, none + seq![s1], c1, s2);
        assert(none + seq![s1] + seq![s2] =~= ops);
        settings_replay(g, ops, c2);
    } else if ops == none {
        settings_replay(g, ops, c);
    } else {
        let c1 = run_setting(c, none, c, ops[0]);
        assert(none + seq![ops[0]] =~= ops);
        settings_replay(g, ops, c1);
    }
}

/// Replaying what [`DamageGrid::input_mode_formatted`] writes sets the input
/// modes, on a terminal that shows the primary screen and reports no mouse.
/// Unless it switches the screen, it leaves everything else that can be seen.
///
/// [`DamageGrid::input_mode_formatted`]: crate::DamageGrid::input_mode_formatted
pub proof fn input_modes_replay(d: GridV, g: GridV)
    requires
        grid_wf(d),
        whole_region(d),
        grid_wf(g),
        mouse_mode_of(d.modes.mouse_mode) == 0,
        mouse_encoding_of(d.modes.mouse_encoding) == 0,
        !d.alt,
    ensures
        ({
            let r = replayed(d, input_mode_ops(g));
            &&& same_input_modes(r, g)
            &&& grid_wf(r)
            &&& whole_region(r)
            &&& r.rows == d.rows
            &&& r.cols == d.cols
            &&& !g.alt ==> picture_kept(r, d)
            &&& g.alt ==> !r.disarmed
        }),
{
    reveal(input_mode_ops);
    let e = early_mode_ops(g);
    let c = early_modes_run(core_of(d), g);
    settings_replay(d, e, c);
    let r1 = replayed(d, e);
    let s = if g.alt {
        seq![PaintOp::Mode(1049, true)]
    } else {
        Seq::<PaintOp>::empty()
    };
    if g.alt {
        switch_step(r1, true);
    } else {
        replayed_none(r1);
    }
    let r2 = replayed(r1, s);
    let l = seq![PaintOp::Mode(25, !g.modes.hide_cursor), PaintOp::Style(g.modes.cursor_style)];
    late_replay(r2, l, g.modes.hide_cursor, g.modes.cursor_style);
    replayed_concat(d, e, s);
    replayed_concat(d, e + s, l);
    assert(input_mode_ops(g) =~= e + s + l);
}

/// The difference step that switches the screen.
proof fn switch_diff_replay(d: GridV, now: bool, prev: bool)
    requires
        grid_wf(d),
        whole_region(d),
        d.alt == prev,
    ensures
        ({
            let r = replayed(d, mode_diff_ops(1049, now, prev));
            &&& grid_wf(r)
            &&& whole_region(r)
            &&& r.rows == d.rows
            &&& r.cols == d.cols
            &&& r.alt == now
            &&& r.modes == d.modes
            &&& now == prev ==> r == d
            &&& now != prev ==> !r.disarmed
        }),
{
    reveal(mode_diff_ops);
    if now != prev {
        switch_step(d, now);
    } else {
        assert(mode_diff_ops(1049, now, prev) =~= Seq::empty());
        replayed_none(d);
    }
}

/// The difference steps after the one that switches the screen.
proof fn late_diff_replay(d: GridV, g: GridV, prev: GridV)
    requires
        grid_wf(d),
        whole_region(d),
        d.modes.hide_cursor == prev.modes.hide_cursor,
        d.modes.cursor_style == prev.modes.cursor_style,
    ensures
        ({
            let r = replayed(
                d,
                mode_diff_ops(25, !g.modes.hide_cursor, !prev.modes.hide_cursor) + style_diff_ops(
                    g,
                    prev,
                ),
            );
            &&& grid_wf(r)
            &&& whole_region(r)
            &&& r.rows == d.rows
            &&& r.cols == d.cols
            &&& r.alt == d.alt
            &&& r.modes == (Modes {
                hide_cursor: g.modes.hide_cursor,
                cursor_style: g.modes.cursor_style,
                ..d.modes
            })
            &&& picture_kept(r, d)
        }),
{
    reveal(mode_diff_ops);
    reveal(style_diff_ops);
    let h = mode_diff_ops(25, !g.modes.hide_cursor, !prev.modes.hide_cursor);
    let y = style_diff_ops(g, prev);
    let l = h + y;
    let s1 = PaintOp::Mode(25, !g.modes.hide_cursor);
    let s2 = PaintOp::Style(g.modes.cursor_style);
    if h.len() == 1 && y.len() == 1 {
        assert(l =~= seq![s1, s2]);
    } else if h.len() == 1 {
        assert(l =~= seq![s1]);
    } else if y.len() == 1 {
        assert(l =~= seq![s2]);
    } else {
        assert(l =~= Seq::<PaintOp>::empty());
    }
    late_replay(d, l, g.modes.hide_cursor, g.modes.cursor_style);
}

/// Replaying what [`DamageGrid::input_mode_diff`] writes turns the input modes
/// of the previous state into those of the state.
///
/// [`DamageGrid::input_mode_diff`]: crate::DamageGrid::input_mode_diff
pub proof fn input_modes_diff_replay(d: GridV, g: GridV, prev: GridV)
    requires
        grid_wf(d),
        whole_region(d),
        grid_wf(g),
        same_input_modes(d, prev),
    ensures
        ({
            let r = replayed(d, input_mode_diff_ops(g, prev));
            &&& same_input_modes(r, g)
            &&& grid_wf(r)
            &&& whole_region(r)
            &&& r.rows == d.rows
            &&& r.cols == d.cols
            &&& g.alt == prev.alt ==> picture_kept(r, d)
            &&& g.alt != prev.alt ==> !r.disarmed
        }),
{
    reveal(input_mode_diff_ops);
    let e = early_diff_ops(g, prev);
    let c = early_diff_run(core_of(d), g, prev);
    settings_replay(d, e, c);
    let r1 = replayed(d, e);
    let s = mode_diff_ops(1049, g.alt, prev.alt);
    switch_diff_replay(r1, g.alt, prev.alt);
    let r2 = replayed(r1, s);
    let h = mode_diff_ops(25, !g.modes.hide_cursor, !prev.modes.hide_cursor);
    let y = style_diff_ops(g, prev);
    late_diff_replay(r2, g, prev);
    replayed_concat(d, e, s);
    replayed_concat(d, e + s, h + y);
    assoc(e + s, h, y);
}

// ── Contents ────────────────────────────────────────────────────────────────

/// A painted screen between the steps that switch DECAWM.
proof fn contents_replay_from(d: GridV, g: GridV, hide: Seq<PaintOp>, paint: Seq<PaintOp>, c: CoreV)
    requires
        grid_wf(d),
        whole_region(d),
        grid_wf(g),
        d.rows == g.rows,
        d.cols == g.cols,
        hide == seq![PaintOp::Mode(25, !g.modes.hide_cursor)] || (hide == Seq::<PaintOp>::empty()
            && d.modes.hide_cursor == g.modes.hide_cursor),
        core_run(
            Some(
                CoreV {
                    modes: Modes {
                        autowrap: true,
                        hide_cursor: g.modes.hide_cursor,
                        ..d.modes
                    },
                    joinable: false,
                    ..core_of(d)
                },
            ),
            paint,
        ) == Some(c),
        shows(
            c,
            CoreV {
                modes: Modes { autowrap: true, hide_cursor: g.modes.hide_cursor, ..d.modes },
                joinable: false,
                ..core_of(d)
            },
            g,
        ),
    ensures
        ({
            let r = replayed(d, seq![PaintOp::Mode(7, true)] + hide + paint + autowrap_off(g));
            &&& same_picture(r, g)
            &&& grid_wf(r)
            &&& whole_region(r)
            &&& !r.disarmed
            &&& r.alt == d.alt
            &&& r.modes == (Modes {
                autowrap: g.modes.autowrap,
                hide_cursor: g.modes.hide_cursor,
                ..d.modes
            })
        }),
{
    reveal(replayed);
    let c0 = core_of(d);
    let on = PaintOp::Mode(7, true);
    core_run_none(c0);
    switches(d.modes, true);
    let none = Seq::<PaintOp>::empty();
    let c1 = run_setting(c0, none, c0, on);
    switches(c1.modes, !g.modes.hide_cursor);
    switches(c.modes, false);
    let o1 = seq![on];
    assert(none + seq![on] =~= o1);
    let c2 = if hide == none {
        assert(o1 + hide =~= o1);
        c1
    } else {
        run_setting(c0, o1, c1, PaintOp::Mode(25, !g.modes.hide_cursor))
    };
    let o2 = o1 + hide;
    core_run_concat(Some(c0), o2, paint);
    let o3 = o2 + paint;
    let all = o3 + autowrap_off(g);
    if g.modes.autowrap {
        assert(all =~= o3);
    } else {
        core_run_one(c, PaintOp::Mode(7, false));
        core_run_concat(Some(c0), o3, seq![PaintOp::Mode(7, false)]);
    }
    core_run_follows(d, all);
    same_cells_by_core(replayed(d, all), g);
}

/// A full paint, replayed.
proof fn full_paint_replay(d: GridV, g: GridV, hide: Seq<PaintOp>)
    requires
        grid_wf(d),
        whole_region(d),
        grid_wf(g),
        d.rows == g.rows,
        d.cols == g.cols,
        hide == seq![PaintOp::Mode(25, !g.modes.hide_cursor)] || (hide == Seq::<PaintOp>::empty()
            && d.modes.hide_cursor == g.modes.hide_cursor),
    ensures
        ({
            let r = replayed(
                d,
                seq![PaintOp::Mode(7, true)] + hide + full_paint(g) + autowrap_off(g),
            );
            &&& same_picture(r, g)
            &&& grid_wf(r)
            &&& whole_region(r)
            &&& !r.disarmed
            &&& r.alt == d.alt
            &&& r.modes == (Modes {
                autowrap: g.modes.autowrap,
                hide_cursor: g.modes.hide_cursor,
                ..d.modes
            })
        }),
{
    core_of_wf(d);
    let c = CoreV {
        modes: Modes { autowrap: true, hide_cursor: g.modes.hide_cursor, ..d.modes },
        joinable: false,
        ..core_of(d)
    };
    let e = full_paint_run(c, g);
    contents_replay_from(d, g, hide, full_paint(g), e);
}

/// A repaint, replayed.
proof fn repaint_replay(d: GridV, g: GridV, prev: GridV, hide: Seq<PaintOp>)
    requires
        grid_wf(d),
        whole_region(d),
        grid_wf(g),
        grid_wf(prev),
        d.rows == g.rows,
        d.cols == g.cols,
        prev.rows == g.rows,
        prev.cols == g.cols,
        same_cells(d, prev),
        d.row == prev.row,
        d.col == prev.col,
        d.pen == prev.pen,
        !d.disarmed,
        hide == seq![PaintOp::Mode(25, !g.modes.hide_cursor)] || (hide == Seq::<PaintOp>::empty()
            && d.modes.hide_cursor == g.modes.hide_cursor),
    ensures
        ({
            let r = replayed(
                d,
                seq![PaintOp::Mode(7, true)] + hide + repaint(g, prev) + autowrap_off(g),
            );
            &&& same_picture(r, g)
            &&& grid_wf(r)
            &&& whole_region(r)
            &&& !r.disarmed
            &&& r.alt == d.alt
            &&& r.modes == (Modes {
                autowrap: g.modes.autowrap,
                hide_cursor: g.modes.hide_cursor,
                ..d.modes
            })
        }),
{
    core_of_wf(d);
    let c = CoreV {
        modes: Modes { autowrap: true, hide_cursor: g.modes.hide_cursor, ..d.modes },
        joinable: false,
        ..core_of(d)
    };
    assert(CoreV { disarmed: false, ..core_of(d) } == core_of(d));
    same_cells_by_core(d, prev);
    let e = repaint_run(c, g, prev);
    contents_replay_from(d, g, hide, repaint(g, prev), e);
}

/// Replaying what [`DamageGrid::contents_formatted`] writes, on any terminal of
/// the same dimensions without scroll margins, makes it look like the state.
/// Of the modes it changes DECAWM and the cursor's visibility alone.
///
/// [`DamageGrid::contents_formatted`]: crate::DamageGrid::contents_formatted
pub proof fn contents_replay(d: GridV, g: GridV)
    requires
        grid_wf(d),
        whole_region(d),
        grid_wf(g),
        d.rows == g.rows,
        d.cols == g.cols,
    ensures
        ({
            let r = replayed(d, contents_ops(g));
            &&& same_picture(r, g)
            &&& grid_wf(r)
            &&& whole_region(r)
            &&& !r.disarmed
            &&& r.alt == d.alt
            &&& r.modes == (Modes {
                autowrap: g.modes.autowrap,
                hide_cursor: g.modes.hide_cursor,
                ..d.modes
            })
        }),
{
    let hide = seq![PaintOp::Mode(25, !g.modes.hide_cursor)];
    full_paint_replay(d, g, hide);
    assert(seq![PaintOp::Mode(7, true)] + hide =~= seq![
        PaintOp::Mode(7, true),
        PaintOp::Mode(25, !g.modes.hide_cursor),
    ]);
}

/// Replaying what [`DamageGrid::contents_diff`] writes, on a terminal without
/// scroll margins that shows the cells, cursor and pen of the previous state,
/// with a wrap pending where the cursor is parked, makes it look like the state.
///
/// [`DamageGrid::contents_diff`]: crate::DamageGrid::contents_diff
pub proof fn contents_diff_replay(d: GridV, g: GridV, prev: GridV)
    requires
        grid_wf(d),
        whole_region(d),
        grid_wf(g),
        grid_wf(prev),
        d.rows == g.rows,
        d.cols == g.cols,
        diffable(g, prev) ==> {
            &&& same_cells(d, prev)
            &&& d.row == prev.row
            &&& d.col == prev.col
            &&& d.pen == prev.pen
            &&& !d.disarmed
        },
        d.modes.hide_cursor == prev.modes.hide_cursor || d.modes.hide_cursor
            == g.modes.hide_cursor,
    ensures
        ({
            let r = replayed(d, contents_diff_ops(g, prev));
            &&& same_picture(r, g)
            &&& grid_wf(r)
            &&& whole_region(r)
            &&& !r.disarmed
            &&& r.alt == d.alt
            &&& r.modes == (Modes {
                autowrap: g.modes.autowrap,
                hide_cursor: g.modes.hide_cursor,
                ..d.modes
            })
        }),
{
    let hide = if g.modes.hide_cursor != prev.modes.hide_cursor {
        seq![PaintOp::Mode(25, !g.modes.hide_cursor)]
    } else {
        Seq::<PaintOp>::empty()
    };
    if diffable(g, prev) {
        repaint_replay(d, g, prev, hide);
    } else {
        full_paint_replay(d, g, hide);
    }
}

// ── Whole states ────────────────────────────────────────────────────────────

/// Replaying what [`DamageGrid::state_formatted`] writes on a fresh terminal of
/// the same dimensions reproduces the state.
///
/// [`DamageGrid::state_formatted`]: crate::DamageGrid::state_formatted
pub proof fn state_replay(g: GridV, limit: int)
    requires
        grid_wf(g),
        0 <= limit <= usize::MAX,
    ensures
        same_state(replayed(fresh(g.rows, g.cols, limit), state_ops(g)), g),
        !replayed(fresh(g.rows, g.cols, limit), state_ops(g)).disarmed,
        grid_wf(replayed(fresh(g.rows, g.cols, limit), state_ops(g))),
        whole_region(replayed(fresh(g.rows, g.cols, limit), state_ops(g))),
{
    let d = fresh(g.rows, g.cols, limit);
    fresh_wf(g.rows, g.cols, limit);
    input_modes_replay(d, g);
    let r1 = replayed(d, input_mode_ops(g));
    contents_replay(r1, g);
    replayed_concat(d, input_mode_ops(g), contents_ops(g));
}

/// Replaying what [`DamageGrid::state_diff`] writes, on a terminal without
/// scroll margins that is in the previous state, with a wrap pending where the
/// cursor is parked, turns that state into the state.
///
/// [`DamageGrid::state_diff`]: crate::DamageGrid::state_diff
pub proof fn state_diff_replay(d: GridV, g: GridV, prev: GridV)
    requires
        grid_wf(d),
        whole_region(d),
        grid_wf(g),
        grid_wf(prev),
        same_state(d, prev),
        g.alt == prev.alt ==> !d.disarmed,
        prev.rows == g.rows,
        prev.cols == g.cols,
    ensures
        same_state(replayed(d, state_diff_ops(g, prev)), g),
        !replayed(d, state_diff_ops(g, prev)).disarmed,
        grid_wf(replayed(d, state_diff_ops(g, prev))),
        whole_region(replayed(d, state_diff_ops(g, prev))),
{
    input_modes_diff_replay(d, g, prev);
    let r1 = replayed(d, input_mode_diff_ops(g, prev));
    if g.alt == prev.alt {
        same_cells_by_core(r1, prev);
        same_cells_by_core(d, prev);
    }
    contents_diff_replay(r1, g, prev);
    replayed_concat(d, input_mode_diff_ops(g, prev), contents_diff_ops(g, prev));
}

/// Replaying a state on a fresh terminal, and then the difference to another
/// state of the same dimensions, reproduces that other state.
pub proof fn state_then_diff_replay(g: GridV, prev: GridV, limit: int)
    requires
        grid_wf(g),
        grid_wf(prev),
        prev.rows == g.rows,
        prev.cols == g.cols,
        0 <= limit <= usize::MAX,
    ensures
        same_state(
            replayed(
                replayed(fresh(g.rows, g.cols, limit), state_ops(prev)),
                state_diff_ops(g, prev),
            ),
            g,
        ),
{
    state_replay(prev, limit);
    state_diff_replay(replayed(fresh(g.rows, g.cols, limit), state_ops(prev)), g, prev);
}

/// Replaying the contents of a state, and then the difference to the contents
/// of another, looks the same as replaying the contents of that other state.
pub proof fn contents_then_diff_replay(d: GridV, g: GridV, prev: GridV)
    requires
        grid_wf(d),
        whole_region(d),
        grid_wf(g),
        grid_wf(prev),
        d.rows == g.rows,
        d.cols == g.cols,
        prev.rows == g.rows,
        prev.cols == g.cols,
    ensures
        same_picture(
            replayed(replayed(d, contents_ops(prev)), contents_diff_ops(g, prev)),
            replayed(d, contents_ops(g)),
        ),
{
    contents_replay(d, prev);
    contents_replay(d, g);
    let r1 = replayed(d, contents_ops(prev));
    contents_diff_replay(r1, g, prev);
    let x = replayed(r1, contents_diff_ops(g, prev));
    let y = replayed(d, contents_ops(g));
    same_cells_by_core(x, g);
    same_cells_by_core(y, g);
    same_cells_by_core(x, y);
}

/// Being equal over the replay contract is an equivalence.
pub proof fn same_state_is_equivalence(a: GridV, b: GridV, c: GridV)
    ensures
        same_state(a, a),
        same_state(a, b) ==> same_state(b, a),
        same_state(a, b) && same_state(b, c) ==> same_state(a, c),
{
    if same_state(a, b) {
        assert forall|i: int| 0 <= i < b.screen.len() implies unlinked_row(
            (#[trigger] b.screen[i]).cells,
        ) == unlinked_row(a.screen[i].cells) by {
            assert(unlinked_row(a.screen[i].cells) == unlinked_row(b.screen[i].cells));
        }
        if same_state(b, c) {
            assert forall|i: int| 0 <= i < a.screen.len() implies unlinked_row(
                (#[trigger] a.screen[i]).cells,
            ) == unlinked_row(c.screen[i].cells) by {
                assert(unlinked_row(a.screen[i].cells) == unlinked_row(b.screen[i].cells));
                assert(unlinked_row(b.screen[i].cells) == unlinked_row(c.screen[i].cells));
            }
        }
    }
}

/// Steps that can be run have their numbers within range.
proof fn core_run_wf(c: Option<CoreV>, ops: Seq<PaintOp>)
    requires
        core_run(c, ops) is Some,
    ensures
        paints_wf(ops),
    decreases ops.len(),
{
    reveal(core_run);
    if ops.len() > 0 {
        core_run_wf(c, ops.drop_last());
        assert forall|i: int| 0 <= i < ops.len() implies paint_wf(#[trigger] ops[i]) by {
            if i < ops.len() - 1 {
                assert(ops.drop_last()[i] == ops[i]);
            }
        }
    }
}

proof fn paints_wf_concat(a: Seq<PaintOp>, b: Seq<PaintOp>)
    requires
        paints_wf(a),
        paints_wf(b),
    ensures
        paints_wf(a + b),
{
}

proof fn full_paint_wf(g: GridV)
    requires
        grid_wf(g),
    ensures
        paints_wf(full_paint(g)),
{
    let d = fresh(g.rows, g.cols, 0);
    fresh_wf(g.rows, g.cols, 0);
    core_of_wf(d);
    let e = full_paint_run(core_of(d), g);
    core_run_wf(Some(core_of(d)), full_paint(g));
}

/// The steps that reproduce the contents have their numbers within range.
pub(crate) proof fn contents_ops_wf(g: GridV)
    requires
        grid_wf(g),
    ensures
        paints_wf(contents_ops(g)),
{
    full_paint_wf(g);
}

/// The steps that paint a difference have their numbers within range.
pub(crate) proof fn contents_diff_ops_wf(g: GridV, prev: GridV)
    requires
        grid_wf(g),
        grid_wf(prev),
    ensures
        paints_wf(contents_diff_ops(g, prev)),
{
    full_paint_wf(g);
    if diffable(g, prev) {
        core_of_wf(prev);
        let c = CoreV {
            modes: Modes { autowrap: true, ..prev.modes },
            disarmed: false,
            ..core_of(prev)
        };
        let e = repaint_run(c, g, prev);
        core_run_wf(Some(c), repaint(g, prev));
    }
}

proof fn small_ops_wf(g: GridV, prev: GridV, mode: u16, other: u16, now: bool, was: bool)
    ensures
        paints_wf(mode_diff_ops(mode, now, was)),
        paints_wf(exclusive_mode_ops(mode, other)),
        paints_wf(keypad_diff_ops(g, prev)),
        paints_wf(style_diff_ops(g, prev)),
{
    reveal(mode_diff_ops);
    reveal(exclusive_mode_ops);
    reveal(keypad_diff_ops);
    reveal(style_diff_ops);
}

/// The steps that set the input modes have their numbers within range.
pub(crate) proof fn input_mode_ops_wf(g: GridV)
    ensures
        paints_wf(input_mode_ops(g)),
{
    reveal(input_mode_ops);
    let first = seq![
        PaintOp::Mode(7, g.modes.autowrap),
        PaintOp::Keypad(g.modes.keypad),
        PaintOp::Mode(1, g.modes.app_cursor),
        PaintOp::Mode(2004, g.modes.paste),
    ];
    let mm = exclusive_mode_ops(mouse_mode_of(g.modes.mouse_mode), 0);
    let me = exclusive_mode_ops(mouse_encoding_of(g.modes.mouse_encoding), 0);
    let alt = if g.alt {
        seq![PaintOp::Mode(1049, true)]
    } else {
        seq![]
    };
    small_ops_wf(g, g, mouse_mode_of(g.modes.mouse_mode), 0, true, true);
    small_ops_wf(g, g, mouse_encoding_of(g.modes.mouse_encoding), 0, true, true);
    paints_wf_concat(first, mm);
    paints_wf_concat(first + mm, me);
    paints_wf_concat(first + mm + me, alt);
    paints_wf_concat(
        first + mm + me + alt,
        seq![PaintOp::Mode(25, !g.modes.hide_cursor), PaintOp::Style(g.modes.cursor_style)],
    );
}

/// The steps that change the input modes have their numbers within range.
pub(crate) proof fn input_mode_diff_ops_wf(g: GridV, prev: GridV)
    ensures
        paints_wf(input_mode_diff_ops(g, prev)),
{
    reveal(input_mode_diff_ops);
    let e = early_diff_ops(g, prev);
    let f = first_diff_ops(g, prev);
    let s1 = mode_diff_ops(7, g.modes.autowrap, prev.modes.autowrap);
    let s2 = keypad_diff_ops(g, prev);
    let s3 = mode_diff_ops(1, g.modes.app_cursor, prev.modes.app_cursor);
    let s4 = mode_diff_ops(2004, g.modes.paste, prev.modes.paste);
    let mm = mouse_mode_of(g.modes.mouse_mode);
    let pm = mouse_mode_of(prev.modes.mouse_mode);
    let me = mouse_encoding_of(g.modes.mouse_encoding);
    let pe = mouse_encoding_of(prev.modes.mouse_encoding);
    small_ops_wf(g, prev, 7, 0, g.modes.autowrap, prev.modes.autowrap);
    small_ops_wf(g, prev, 1, 0, g.modes.app_cursor, prev.modes.app_cursor);
    small_ops_wf(g, prev, 2004, 0, g.modes.paste, prev.modes.paste);
    small_ops_wf(g, prev, 1049, 0, g.alt, prev.alt);
    small_ops_wf(g, prev, 25, 0, !g.modes.hide_cursor, !prev.modes.hide_cursor);
    small_ops_wf(g, prev, mm, pm, true, true);
    small_ops_wf(g, prev, me, pe, true, true);
    paints_wf_concat(s1, s2);
    paints_wf_concat(s1 + s2, s3);
    paints_wf_concat(s1 + s2 + s3, s4);
    let s5 = exclusive_mode_ops(
        mouse_mode_of(g.modes.mouse_mode),
        mouse_mode_of(prev.modes.mouse_mode),
    );
    let s6 = exclusive_mode_ops(
        mouse_encoding_of(g.modes.mouse_encoding),
        mouse_encoding_of(prev.modes.mouse_encoding),
    );
    paints_wf_concat(f, s5);
    paints_wf_concat(f + s5, s6);
    let s7 = mode_diff_ops(1049, g.alt, prev.alt);
    let s8 = mode_diff_ops(25, !g.modes.hide_cursor, !prev.modes.hide_cursor);
    let s9 = style_diff_ops(g, prev);
    paints_wf_concat(e, s7);
    paints_wf_concat(e + s7, s8);
    paints_wf_concat(e + s7 + s8, s9);
}

} // verus!
