//! What the sequences that set something do: attributes, modes and resets.

use crate::cell::{Attrs, Color, UnderlineStyle};
use crate::editing::bare_row;
use crate::model::RowV;
use crate::passthrough::PassV;
use crate::state::{
    apply, csi_other, decrqm, first_of, fresh, grid_wf, set_dec_mode, set_dec_modes, sgr, with_mode,
    EventV, GridV, Modes, MouseProtocolEncoding, MouseProtocolMode, SavedV,
};
use vstd::prelude::*;

verus! {

// ── Attributes ──────────────────────────────────────────────────────────────

/// The SGR sequence with the given parameters.
pub open spec fn rendition(params: Seq<Seq<u16>>) -> EventV {
    EventV::Csi { params, intermediates: Seq::empty(), action: 'm' }
}

/// Attributes with nothing set.
pub open spec fn nothing_set() -> Attrs {
    crate::editing::bare(Color::Default).attrs
}

/// SGR changes the pen alone.
pub proof fn rendition_changes_the_pen(g: GridV, params: Seq<Seq<u16>>)
    ensures
        ({
            let h = apply(g, rendition(params));
            h == (GridV { pen: h.pen, joinable: false, ..g })
        }),
        apply(g, rendition(Seq::empty())).pen == nothing_set(),
{
    reveal(csi_other);
}

proof fn one_code(g: GridV, param: Seq<u16>)
    requires
        first_of(param) != 38,
        first_of(param) != 48,
        first_of(param) != 58,
    ensures
        apply(g, rendition(seq![param])).pen == crate::state::sgr_simple(g.pen, param),
{
    reveal(csi_other);
    reveal_with_fuel(sgr, 2);
    let params = seq![param];
    assert(params[0] == param);
    assert(params.skip(1) =~= Seq::empty());
}

/// What each code without values of its own does to the pen. Codes that are not
/// listed leave it as it is.
pub proof fn codes_set_attributes(g: GridV, code: u16)
    requires
        code != 38,
        code != 48,
        code != 58,
    ensures
        ({
            let p = g.pen;
            let q = apply(g, rendition(seq![seq![code]])).pen;
            &&& code == 0 ==> q == nothing_set()
            &&& code == 1 ==> q == (Attrs { bold: true, ..p })
            &&& code == 2 ==> q == (Attrs { dim: true, ..p })
            &&& code == 3 ==> q == (Attrs { italic: true, ..p })
            &&& code == 4 ==> q == (Attrs { underline_style: UnderlineStyle::Single, ..p })
            &&& code == 5 ==> q == (Attrs { slow_blink: true, ..p })
            &&& code == 6 ==> q == (Attrs { rapid_blink: true, ..p })
            &&& code == 7 ==> q == (Attrs { inverse: true, ..p })
            &&& code == 8 ==> q == (Attrs { conceal: true, ..p })
            &&& code == 9 ==> q == (Attrs { strikethrough: true, ..p })
            &&& code == 21 ==> q == (Attrs { underline_style: UnderlineStyle::Double, ..p })
            &&& code == 22 ==> q == (Attrs { bold: false, dim: false, ..p })
            &&& code == 23 ==> q == (Attrs { italic: false, ..p })
            &&& code == 24 ==> q == (Attrs { underline_style: UnderlineStyle::Off, ..p })
            &&& code == 25 ==> q == (Attrs { slow_blink: false, rapid_blink: false, ..p })
            &&& code == 27 ==> q == (Attrs { inverse: false, ..p })
            &&& code == 28 ==> q == (Attrs { conceal: false, ..p })
            &&& code == 29 ==> q == (Attrs { strikethrough: false, ..p })
            &&& 30 <= code <= 37 ==> q == (Attrs { foreground: Color::Idx((code - 30) as u8), ..p })
            &&& code == 39 ==> q == (Attrs { foreground: Color::Default, ..p })
            &&& 40 <= code <= 47 ==> q == (Attrs { background: Color::Idx((code - 40) as u8), ..p })
            &&& code == 49 ==> q == (Attrs { background: Color::Default, ..p })
            &&& code == 53 ==> q == (Attrs { overline: true, ..p })
            &&& code == 55 ==> q == (Attrs { overline: false, ..p })
            &&& code == 59 ==> q == (Attrs { underline_color: Color::Default, ..p })
            &&& 90 <= code <= 97 ==> q == (Attrs {
                foreground: Color::Idx((8 + (code - 90)) as u8),
                ..p
            })
            &&& 100 <= code <= 107 ==> q == (Attrs {
                background: Color::Idx((8 + (code - 100)) as u8),
                ..p
            })
            &&& 10 <= code <= 20 || code == 26 || code == 50 || code == 51 || code == 52 || code
                == 54 || code == 56 || code == 57 || 60 <= code <= 89 || 98 <= code <= 99 || code
                > 107 ==> q == p
        }),
{
    one_code(g, seq![code]);
}

/// The underline style that a colon value behind code 4 asks for.
pub proof fn underline_values_set_styles(g: GridV, n: u16)
    ensures
        ({
            let q = apply(g, rendition(seq![seq![4u16, n]])).pen;
            &&& q == (Attrs { underline_style: q.underline_style, ..g.pen })
            &&& n == 0 ==> q.underline_style == UnderlineStyle::Off
            &&& n == 2 ==> q.underline_style == UnderlineStyle::Double
            &&& n == 3 ==> q.underline_style == UnderlineStyle::Curly
            &&& n == 4 ==> q.underline_style == UnderlineStyle::Dotted
            &&& n == 5 ==> q.underline_style == UnderlineStyle::Dashed
            &&& n == 1 || n > 5 ==> q.underline_style == UnderlineStyle::Single
        }),
{
    one_code(g, seq![4u16, n]);
}

/// The pen with the color that code 38, 48 or 58 speaks of replaced.
pub open spec fn recolored(pen: Attrs, code: u16, color: Color) -> Attrs {
    if code == 38 {
        Attrs { foreground: color, ..pen }
    } else if code == 48 {
        Attrs { background: color, ..pen }
    } else {
        Attrs { underline_color: color, ..pen }
    }
}

/// A value as a color channel: no more than 255.
pub open spec fn capped(n: u16) -> u8 {
    if n <= 255 {
        n as u8
    } else {
        255
    }
}

/// Extended colors, in parameters of their own or as colon values of the code,
/// with or without an empty color space.
pub proof fn extended_colors_are_set(g: GridV, code: u16, r: u16, gr: u16, b: u16)
    requires
        code == 38 || code == 48 || code == 58,
    ensures
        ({
            let idx = recolored(g.pen, code, Color::Idx(capped(r)));
            let rgb = recolored(g.pen, code, Color::Rgb(capped(r), capped(gr), capped(b)));
            &&& apply(g, rendition(seq![seq![code], seq![5u16], seq![r]])).pen == idx
            &&& apply(g, rendition(seq![seq![code, 5u16, r]])).pen == idx
            &&& apply(
                g,
                rendition(seq![seq![code], seq![2u16], seq![r], seq![gr], seq![b]]),
            ).pen == rgb
            &&& apply(g, rendition(seq![seq![code, 2u16, r, gr, b]])).pen == rgb
            &&& apply(g, rendition(seq![seq![code, 2u16, 0u16, r, gr, b]])).pen == rgb
            &&& apply(g, rendition(seq![seq![code]])).pen == g.pen
        }),
{
    extended_one(g, seq![seq![code], seq![5u16], seq![r]]);
    extended_one(g, seq![seq![code, 5u16, r]]);
    extended_one(g, seq![seq![code], seq![2u16], seq![r], seq![gr], seq![b]]);
    extended_one(g, seq![seq![code, 2u16, r, gr, b]]);
    extended_one(g, seq![seq![code, 2u16, 0u16, r, gr, b]]);
    extended_one(g, seq![seq![code]]);
    let v1 = seq![code, 5u16, r].skip(1);
    assert(v1[0] == 5 && v1[1] == r);
    let v2 = seq![code, 2u16, r, gr, b].skip(1);
    assert(v2.len() == 4 && v2[0] == 2 && v2[1] == r && v2[2] == gr && v2[3] == b);
    let v3 = seq![code, 2u16, 0u16, r, gr, b].skip(1);
    assert(v3.len() == 5 && v3[0] == 2 && v3[1] == 0 && v3[2] == r && v3[3] == gr && v3[4] == b);
}

proof fn extended_one(g: GridV, params: Seq<Seq<u16>>)
    requires
        params.len() > 0,
        first_of(params[0]) == 38 || first_of(params[0]) == 48 || first_of(params[0]) == 58,
        crate::state::color_at(params).1 == params.len(),
    ensures
        apply(g, rendition(params)).pen == crate::state::sgr_color(
            g.pen,
            first_of(params[0]),
            crate::state::color_at(params).0,
        ),
{
    reveal(csi_other);
    reveal_with_fuel(sgr, 2);
    assert(params.skip(params.len() as int) =~= Seq::empty());
}

/// Parameters work in order: those behind a code without values do what they
/// would do in a sequence of their own.
pub proof fn codes_work_in_order(g: GridV, param: Seq<u16>, rest: Seq<Seq<u16>>)
    requires
        first_of(param) != 38,
        first_of(param) != 48,
        first_of(param) != 58,
        rest.len() > 0,
    ensures
        apply(g, rendition(seq![param] + rest)).pen == apply(
            apply(g, rendition(seq![param])),
            rendition(rest),
        ).pen,
{
    one_code(g, param);
    reveal(csi_other);
    reveal_with_fuel(sgr, 2);
    let all = seq![param] + rest;
    assert(all[0] == param);
    assert(all.skip(1) =~= rest);
}

/// A color code that no color follows is passed over, and what stands behind it
/// does what it would do on its own.
pub proof fn broken_colors_are_passed_over(g: GridV, code: u16, rest: Seq<Seq<u16>>)
    requires
        code == 38 || code == 48 || code == 58,
        rest.len() > 0,
        first_of(rest[0]) != 5 || rest.len() < 2,
        first_of(rest[0]) != 2 || rest.len() < 4,
    ensures
        apply(g, rendition(seq![seq![code]] + rest)).pen == apply(g, rendition(rest)).pen,
{
    reveal(csi_other);
    reveal_with_fuel(sgr, 2);
    let all = seq![seq![code]] + rest;
    assert(all[0] == seq![code]);
    assert(all[1] == rest[0]);
    assert(all.skip(1) =~= rest);
}

/// Parameters behind an extended color do what they would do on their own.
pub proof fn colors_work_in_order(g: GridV, color: Seq<Seq<u16>>, rest: Seq<Seq<u16>>)
    requires
        rest.len() > 0,
        ({
            ||| color.len() == 3 && color[0].len() == 1 && color[1].len() == 1 && color[1][0] == 5
            ||| color.len() == 5 && color[0].len() == 1 && color[1].len() == 1 && color[1][0] == 2
            ||| color.len() == 1 && color[0].len() > 1
        }),
        color[0][0] == 38 || color[0][0] == 48 || color[0][0] == 58,
    ensures
        apply(g, rendition(color + rest)).pen == apply(
            apply(g, rendition(color)),
            rendition(rest),
        ).pen,
{
    let all = color + rest;
    assert(all[0] == color[0]);
    if color.len() > 1 {
        assert(all[1] == color[1]);
        assert(all[2] == color[2]);
    }
    if color.len() == 5 {
        assert(all[3] == color[3]);
        assert(all[4] == color[4]);
    }
    extended_one(g, color);
    reveal(csi_other);
    reveal_with_fuel(sgr, 2);
    assert(all.skip(color.len() as int) =~= rest);
}

// ── Modes ───────────────────────────────────────────────────────────────────

/// The sequence that switches DEC private modes on or off.
pub open spec fn switch(params: Seq<Seq<u16>>, on: bool) -> EventV {
    EventV::Csi {
        params,
        intermediates: seq![0x3fu8],
        action: if on {
            'h'
        } else {
            'l'
        },
    }
}

proof fn one_switch(g: GridV, mode: u16, on: bool)
    ensures
        apply(g, switch(seq![seq![mode]], on)) == (GridV {
            joinable: false,
            ..set_dec_mode(g, mode, on)
        }),
{
    reveal(csi_other);
    reveal_with_fuel(set_dec_modes, 2);
    let params = seq![seq![mode]];
    assert(params.drop_last() =~= Seq::<Seq<u16>>::empty());
    assert(first_of(params.last()) == mode);
}

/// Several modes in one sequence are switched one after the other.
pub proof fn modes_switch_in_order(g: GridV, params: Seq<Seq<u16>>, mode: u16, on: bool)
    ensures
        apply(g, switch(params.push(seq![mode]), on)) == apply(
            apply(g, switch(params, on)),
            switch(seq![seq![mode]], on),
        ),
{
    let m = set_dec_modes(g, params, on);
    let all = params.push(seq![mode]);
    assert(all.drop_last() =~= params);
    assert(first_of(all.last()) == mode);
    assert(set_dec_modes(g, all, on) == set_dec_mode(m, mode, on));
    several_switches(g, params, on);
    several_switches(g, all, on);
    one_switch(apply(g, switch(params, on)), mode, on);
    joining_is_no_matter(m, mode, on);
}

proof fn several_switches(g: GridV, params: Seq<Seq<u16>>, on: bool)
    ensures
        apply(g, switch(params, on)) == (GridV {
            joinable: false,
            ..set_dec_modes(g, params, on)
        }),
{
    reveal(csi_other);
}

proof fn joining_is_no_matter(g: GridV, mode: u16, on: bool)
    ensures
        (GridV { joinable: false, ..set_dec_mode(GridV { joinable: false, ..g }, mode, on) }) == (
        GridV { joinable: false, ..set_dec_mode(g, mode, on) }),
{
    reveal(set_dec_mode);
}

proof fn switch_changes(g: GridV, mode: u16, on: bool)
    requires
        mode != 47 && mode != 1047 && mode != 1049,
    ensures
        apply(g, switch(seq![seq![mode]], on)) == (GridV {
            modes: with_mode(g.modes, mode, on),
            events: g.events + crate::state::mode_events(mode, on),
            joinable: false,
            ..g
        }),
{
    one_switch(g, mode, on);
    reveal(set_dec_mode);
}

proof fn quiet_switch(g: GridV, mode: u16, on: bool)
    requires
        mode != 47 && mode != 1047 && mode != 1049,
        mode != 1 && mode != 1004 && mode != 2004,
    ensures
        apply(g, switch(seq![seq![mode]], on)) == (GridV {
            modes: with_mode(g.modes, mode, on),
            joinable: false,
            ..g
        }),
{
    switch_changes(g, mode, on);
    assert(g.events + Seq::<PassV>::empty() =~= g.events);
}

/// The modes that the outer terminal has to know of are switched and handed on,
/// and nothing else changes.
pub proof fn announced_modes_switch(g: GridV, on: bool)
    ensures
        apply(g, switch(seq![seq![1u16]], on)) == (GridV {
            modes: Modes { app_cursor: on, ..g.modes },
            events: g.events.push(PassV::ApplicationCursorKeys(on)),
            joinable: false,
            ..g
        }),
        apply(g, switch(seq![seq![1004u16]], on)) == (GridV {
            modes: Modes { focus: on, ..g.modes },
            events: g.events.push(PassV::FocusEvents(on)),
            joinable: false,
            ..g
        }),
        apply(g, switch(seq![seq![2004u16]], on)) == (GridV {
            modes: Modes { paste: on, ..g.modes },
            events: g.events.push(PassV::BracketedPaste(on)),
            joinable: false,
            ..g
        }),
{
    switch_changes(g, 1, on);
    switch_changes(g, 1004, on);
    switch_changes(g, 2004, on);
    reveal(with_mode);
    assert(g.events + seq![PassV::ApplicationCursorKeys(on)] =~= g.events.push(
        PassV::ApplicationCursorKeys(on),
    ));
    assert(g.events + seq![PassV::FocusEvents(on)] =~= g.events.push(PassV::FocusEvents(on)));
    assert(g.events + seq![PassV::BracketedPaste(on)] =~= g.events.push(PassV::BracketedPaste(on)));
}

/// Every other mode switches what it stands for, and nothing else; modes that
/// stand for nothing change nothing.
pub proof fn quiet_modes_switch(g: GridV, mode: u16, on: bool)
    requires
        mode != 1 && mode != 1004 && mode != 2004,
        mode != 47 && mode != 1047 && mode != 1049,
    ensures
        ({
            let h = apply(g, switch(seq![seq![mode]], on));
            &&& h == (GridV { modes: h.modes, joinable: false, ..g })
            &&& h.modes == (Modes {
                autowrap: if mode == 7 {
                    on
                } else {
                    g.modes.autowrap
                },
                text_cursor: if mode == 12 {
                    Some(on)
                } else {
                    g.modes.text_cursor
                },
                hide_cursor: if mode == 25 {
                    !on
                } else {
                    g.modes.hide_cursor
                },
                sync_update: if mode == 2026 {
                    on
                } else {
                    g.modes.sync_update
                },
                mouse_mode: if mode != 1000 && mode != 1002 && mode != 1003 {
                    g.modes.mouse_mode
                } else if !on {
                    MouseProtocolMode::Off
                } else if mode == 1000 {
                    MouseProtocolMode::Press
                } else if mode == 1002 {
                    MouseProtocolMode::ButtonMotion
                } else {
                    MouseProtocolMode::AnyMotion
                },
                mouse_encoding: if mode != 1005 && mode != 1006 && mode != 1015 {
                    g.modes.mouse_encoding
                } else if !on {
                    MouseProtocolEncoding::Default
                } else if mode == 1005 {
                    MouseProtocolEncoding::Utf8
                } else if mode == 1006 {
                    MouseProtocolEncoding::Sgr
                } else {
                    MouseProtocolEncoding::Urxvt
                },
                ..g.modes
            })
        }),
{
    quiet_switch(g, mode, on);
    reveal(with_mode);
}

/// The alternate screen is switched with its rows alone (47 and 1047), or with
/// the cursor saved and sent home on entering and brought back on leaving (1049).
/// The rows of the two screens change places, and nothing else changes, but that
/// leaving by 1049 resets each kitty keyboard level that was pushed.
pub proof fn screens_switch(g: GridV, mode: u16, on: bool)
    requires
        grid_wf(g),
        mode == 47 || mode == 1047 || mode == 1049,
    ensures
        ({
            let h = apply(g, switch(seq![seq![mode]], on));
            let swaps = g.alt != on;
            &&& h.alt == on
            &&& h.dirty.all
            &&& h.screen == if swaps {
                g.hidden
            } else {
                g.screen
            }
            &&& h.hidden == if swaps {
                g.screen
            } else {
                g.hidden
            }
            &&& mode != 1049 ==> h == (GridV {
                alt: on,
                screen: h.screen,
                hidden: h.hidden,
                dirty: h.dirty,
                joinable: false,
                ..g
            })
            &&& mode == 1049 && on ==> h == (GridV {
                alt: on,
                screen: h.screen,
                hidden: h.hidden,
                dirty: h.dirty,
                row: 0,
                col: 0,
                disarmed: false,
                saved: SavedV { row: g.row, col: g.col, parked: g.col == g.cols && !g.disarmed },
                joinable: false,
                ..g
            })
            &&& mode == 1049 && !on ==> {
                &&& h == (GridV {
                    alt: on,
                    screen: h.screen,
                    hidden: h.hidden,
                    dirty: h.dirty,
                    row: if g.saved.row < g.rows {
                        g.saved.row
                    } else {
                        g.rows - 1
                    },
                    col: if g.saved.parked {
                        g.cols
                    } else if g.saved.col < g.cols {
                        g.saved.col
                    } else {
                        g.cols - 1
                    },
                    disarmed: false,
                    kitty: Seq::empty(),
                    events: h.events,
                    joinable: false,
                    ..g
                })
                &&& h.events.len() == g.events.len() + g.kitty.len()
                &&& h.events.take(g.events.len() as int) == g.events
                &&& forall|i: int|
                    g.events.len() <= i < h.events.len() ==> #[trigger] h.events[i]
                        == PassV::UnhandledCsi(seq![0x1bu8, 0x5bu8, 0x3cu8, 0x75u8])
            }
        }),
{
    one_switch(g, mode, on);
    reveal(set_dec_mode);
    let h = apply(g, switch(seq![seq![mode]], on));
    if mode == 1049 && !on {
        reveal_strlit("\x1b[<u");
        crate::answers::ascii_bytes("\x1b[<u"@);
        assert(vstd::utf8::encode_utf8("\x1b[<u"@) =~= seq![0x1bu8, 0x5bu8, 0x3cu8, 0x75u8]);
        assert(h.events.take(g.events.len() as int) =~= g.events);
    }
}

/// What a mode query is answered, by what the grid holds: set, reset, or not
/// known.
pub proof fn queries_tell_the_modes(g: GridV)
    ensures
        decrqm(g, 1) == if g.modes.app_cursor {
            1u16
        } else {
            2
        },
        decrqm(g, 7) == if g.modes.autowrap {
            1u16
        } else {
            2
        },
        decrqm(g, 12) == if g.modes.text_cursor == Some(true) {
            1u16
        } else {
            2
        },
        decrqm(g, 25) == if g.modes.hide_cursor {
            2u16
        } else {
            1
        },
        decrqm(g, 47) == if g.alt {
            1u16
        } else {
            2
        },
        decrqm(g, 1047) == decrqm(g, 47),
        decrqm(g, 1049) == decrqm(g, 47),
        decrqm(g, 1000) == if g.modes.mouse_mode == MouseProtocolMode::Press {
            1u16
        } else {
            2
        },
        decrqm(g, 1002) == if g.modes.mouse_mode == MouseProtocolMode::PressRelease
            || g.modes.mouse_mode == MouseProtocolMode::ButtonMotion {
            1u16
        } else {
            2
        },
        decrqm(g, 1003) == if g.modes.mouse_mode == MouseProtocolMode::AnyEvent
            || g.modes.mouse_mode == MouseProtocolMode::AnyMotion {
            1u16
        } else {
            2
        },
        decrqm(g, 1004) == if g.modes.focus {
            1u16
        } else {
            2
        },
        decrqm(g, 1005) == if g.modes.mouse_encoding == MouseProtocolEncoding::Utf8 {
            1u16
        } else {
            2
        },
        decrqm(g, 1006) == if g.modes.mouse_encoding == MouseProtocolEncoding::Sgr {
            1u16
        } else {
            2
        },
        decrqm(g, 1015) == if g.modes.mouse_encoding == MouseProtocolEncoding::Urxvt {
            1u16
        } else {
            2
        },
        decrqm(g, 2004) == if g.modes.paste {
            1u16
        } else {
            2
        },
        decrqm(g, 2026) == if g.modes.sync_update {
            1u16
        } else {
            2
        },
{
}

/// The keypad switches, and the cursor style is what the sequence says.
pub proof fn keypad_and_style_are_set(g: GridV, params: Seq<Seq<u16>>)
    ensures
        apply(g, EventV::Esc { byte: 0x3d }) == (GridV {
            modes: Modes { keypad: true, ..g.modes },
            joinable: false,
            ..g
        }),
        apply(g, EventV::Esc { byte: 0x3e }) == (GridV {
            modes: Modes { keypad: false, ..g.modes },
            joinable: false,
            ..g
        }),
        apply(g, EventV::Csi { params, intermediates: seq![0x20u8], action: 'q' }) == (GridV {
            modes: Modes {
                cursor_style: if params.len() == 0 || params[0].len() == 0 {
                    0
                } else {
                    params[0][0]
                },
                ..g.modes
            },
            joinable: false,
            ..g
        }),
{
    reveal(csi_other);
    assert(seq![0x20u8][0] == 0x20 && seq![0x3eu8][0] == 0x3e);
}

// ── Resets ──────────────────────────────────────────────────────────────────

/// A soft reset clears the attributes and the margins, shows the cursor, puts the
/// cursor keys and the paste mode back to normal, cancels a pending wrap, and
/// saves the cursor where it stands. It leaves the screen alone.
pub proof fn soft_reset_resets(g: GridV, params: Seq<Seq<u16>>)
    requires
        grid_wf(g),
    ensures
        apply(g, EventV::Csi { params, intermediates: seq![0x21u8], action: 'p' }) == (GridV {
            pen: nothing_set(),
            top: 0,
            bottom: g.rows - 1,
            modes: Modes { hide_cursor: false, app_cursor: false, paste: false, ..g.modes },
            disarmed: g.col == g.cols,
            saved: SavedV { row: g.row, col: g.col, parked: false },
            joinable: false,
            ..g
        }),
{
    reveal(csi_other);
    assert(seq![0x21u8][0] == 0x21);
    assert(!seq![0x21u8].contains(0x24));
}

/// Whether all rows of a screen are blank.
pub open spec fn all_bare(screen: Seq<RowV>, rows: int, cols: int) -> bool {
    &&& screen.len() == rows
    &&& forall|r: int| 0 <= r < rows ==> bare_row(#[trigger] screen[r], cols)
}

/// A full reset blanks both screens, shows the primary one, sends the cursor home,
/// and puts attributes, link, margins and modes back, but for the cursor style.
/// What was scrolled away stays, seen from its newest end.
pub proof fn full_reset_resets(g: GridV)
    ensures
        ({
            let h = apply(g, EventV::Esc { byte: 0x63 });
            &&& h.rows >= 0 && h.cols >= 0 ==> all_bare(h.screen, g.rows, g.cols) && all_bare(
                h.hidden,
                g.rows,
                g.cols,
            )
            &&& h.dirty.all
            &&& h == (GridV {
                screen: h.screen,
                hidden: h.hidden,
                dirty: h.dirty,
                alt: false,
                row: 0,
                col: 0,
                disarmed: false,
                pen: nothing_set(),
                link: None,
                link_id: 0,
                top: 0,
                bottom: g.rows - 1,
                offset: 0,
                modes: Modes {
                    autowrap: true,
                    keypad: false,
                    app_cursor: false,
                    paste: false,
                    focus: false,
                    hide_cursor: false,
                    text_cursor: None,
                    sync_update: false,
                    mouse_mode: MouseProtocolMode::Off,
                    mouse_encoding: MouseProtocolEncoding::Default,
                    cursor_style: g.modes.cursor_style,
                },
                joinable: false,
                ..g
            })
        }),
{
}

/// A new grid: both screens blank, the primary one shown, the cursor home, the
/// wrap on, every other mode off, nothing scrolled away, queued or damaged.
pub proof fn new_grids_are_blank(rows: int, cols: int, limit: int)
    requires
        rows >= 1,
        cols >= 1,
    ensures
        ({
            let g = fresh(rows, cols, limit);
            &&& g.rows == rows && g.cols == cols && g.limit == limit
            &&& all_bare(g.screen, rows, cols)
            &&& all_bare(g.hidden, rows, cols)
            &&& !g.alt && g.scrollback.len() == 0 && g.offset == 0
            &&& g.row == 0 && g.col == 0 && !g.disarmed
            &&& g.saved == (SavedV { row: 0, col: 0, parked: false })
            &&& g.pen == nothing_set()
            &&& g.link is None && g.link_id == 0 && g.link_serial == 0
            &&& g.top == 0 && g.bottom == rows - 1
            &&& g.kitty.len() == 0 && g.events.len() == 0 && g.scroll_ops.len() == 0
            &&& !g.dirty.all && g.dirty.spans.len() == 0
            &&& !g.mutated && g.preserved is None && !g.joinable
            &&& g.fg == (0xe6u8, 0xe6u8, 0xe6u8) && g.bg == (0u8, 0u8, 0u8)
            &&& g.modes == (Modes {
                autowrap: true,
                keypad: false,
                app_cursor: false,
                paste: false,
                focus: false,
                hide_cursor: false,
                text_cursor: None,
                sync_update: false,
                mouse_mode: MouseProtocolMode::Off,
                mouse_encoding: MouseProtocolEncoding::Default,
                cursor_style: 0,
            })
        }),
{
}

} // verus!
