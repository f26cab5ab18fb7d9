//! The SGR parameters that turn one pen into another do so.

use crate::cell::{Attrs, Color, UnderlineStyle};
use crate::ops::{csi_item, item_wf, value_count};
use crate::paint::{
    background_params, blink_params, foreground_params, intensity_params, long_color, one,
    sgr_params, switch_params, underline_color_params, underline_params,
};
use crate::state::{color_at, sgr, sgr_color, sgr_simple};
use vstd::prelude::*;

verus! {

/// One parameter that selects no extended color, before others.
proof fn sgr_one(pen: Attrs, code: int, rest: Seq<Seq<u16>>)
    requires
        0 <= code <= u16::MAX,
        code != 38 && code != 48 && code != 58,
    ensures
        sgr(pen, one(code) + rest) == sgr(sgr_simple(pen, seq![code as u16]), rest),
{
    reveal(sgr);
    let params = one(code) + rest;
    assert(params[0] == seq![code as u16]);
    assert(params.skip(1) =~= rest);
}

/// One parameter with a colon value, before others.
proof fn sgr_pair(pen: Attrs, style: u16, rest: Seq<Seq<u16>>)
    ensures
        sgr(pen, seq![seq![4u16, style]] + rest) == sgr(
            sgr_simple(pen, seq![4u16, style]),
            rest,
        ),
{
    reveal(sgr);
    let params = seq![seq![4u16, style]] + rest;
    assert(params[0] == seq![4u16, style]);
    assert(params.skip(1) =~= rest);
}

/// A color in the long form, before other parameters.
proof fn sgr_long(pen: Attrs, code: int, color: Color, rest: Seq<Seq<u16>>)
    requires
        code == 38 || code == 48 || code == 58,
        color != Color::Default,
    ensures
        sgr(pen, long_color(code, color) + rest) == sgr(
            sgr_color(pen, code as u16, Some(color)),
            rest,
        ),
{
    reveal(sgr);
    let params = long_color(code, color) + rest;
    assert(params[0] == seq![code as u16]);
    match color {
        Color::Idx(i) => {
            assert(params[1] == seq![5u16]);
            assert(params[2] == seq![i as u16]);
            assert(params.skip(3) =~= rest);
            assert(color_at(params) == (Some(color), 3int));
        },
        Color::Rgb(r, g, b) => {
            assert(params[1] == seq![2u16]);
            assert(params[2] == seq![r as u16]);
            assert(params[3] == seq![g as u16]);
            assert(params[4] == seq![b as u16]);
            assert(params.skip(5) =~= rest);
            assert(color_at(params) == (Some(color), 5int));
        },
        Color::Default => {},
    }
}

proof fn foreground_applies(pen: Attrs, target: Attrs, rest: Seq<Seq<u16>>)
    ensures
        sgr(pen, foreground_params(target, pen) + rest) == sgr(
            Attrs { foreground: target.foreground, ..pen },
            rest,
        ),
{
    reveal(foreground_params);
    if target.foreground == pen.foreground {
        assert(foreground_params(target, pen) + rest =~= rest);
    } else {
        match target.foreground {
            Color::Default => sgr_one(pen, 39, rest),
            Color::Idx(i) => {
                if i < 8 {
                    sgr_one(pen, i + 30, rest);
                } else if i < 16 {
                    sgr_one(pen, i + 82, rest);
                } else {
                    sgr_long(pen, 38, target.foreground, rest);
                }
            },
            Color::Rgb(..) => sgr_long(pen, 38, target.foreground, rest),
        }
    }
}

proof fn background_applies(pen: Attrs, prev: Attrs, target: Attrs, rest: Seq<Seq<u16>>)
    requires
        pen.background == prev.background,
    ensures
        sgr(pen, background_params(target, prev) + rest) == sgr(
            Attrs { background: target.background, ..pen },
            rest,
        ),
{
    reveal(background_params);
    if target.background == prev.background {
        assert(background_params(target, prev) + rest =~= rest);
    } else {
        match target.background {
            Color::Default => sgr_one(pen, 49, rest),
            Color::Idx(i) => {
                if i < 8 {
                    sgr_one(pen, i + 40, rest);
                } else if i < 16 {
                    sgr_one(pen, i + 92, rest);
                } else {
                    sgr_long(pen, 48, target.background, rest);
                }
            },
            Color::Rgb(..) => sgr_long(pen, 48, target.background, rest),
        }
    }
}

proof fn intensity_applies(pen: Attrs, prev: Attrs, target: Attrs, rest: Seq<Seq<u16>>)
    requires
        pen.bold == prev.bold,
        pen.dim == prev.dim,
    ensures
        sgr(pen, intensity_params(target, prev) + rest) == sgr(
            Attrs { bold: target.bold, dim: target.dim, ..pen },
            rest,
        ),
{
    reveal(intensity_params);
    let p = intensity_params(target, prev);
    if target.bold == prev.bold && target.dim == prev.dim {
        assert(p + rest =~= rest);
    } else if target.bold && target.dim {
        assert(p + rest =~= one(1) + (one(2) + rest));
        sgr_one(pen, 1, one(2) + rest);
        sgr_one(Attrs { bold: true, ..pen }, 2, rest);
    } else if target.bold {
        assert(p + rest =~= one(22) + (one(1) + rest));
        sgr_one(pen, 22, one(1) + rest);
        sgr_one(Attrs { bold: false, dim: false, ..pen }, 1, rest);
    } else if target.dim {
        assert(p + rest =~= one(22) + (one(2) + rest));
        sgr_one(pen, 22, one(2) + rest);
        sgr_one(Attrs { bold: false, dim: false, ..pen }, 2, rest);
    } else {
        sgr_one(pen, 22, rest);
    }
}

proof fn switch_applies(
    pen: Attrs,
    target: bool,
    prev: bool,
    on: int,
    off: int,
    rest: Seq<Seq<u16>>,
)
    requires
        0 < on < 100 && on != 38 && on != 48 && on != 58,
        0 < off < 100 && off != 38 && off != 48 && off != 58,
    ensures
        sgr(pen, switch_params(target, prev, on, off) + rest) == sgr(
            if target == prev {
                pen
            } else if target {
                sgr_simple(pen, seq![on as u16])
            } else {
                sgr_simple(pen, seq![off as u16])
            },
            rest,
        ),
{
    reveal(switch_params);
    if target == prev {
        assert(switch_params(target, prev, on, off) + rest =~= rest);
    } else if target {
        sgr_one(pen, on, rest);
    } else {
        sgr_one(pen, off, rest);
    }
}

proof fn italic_applies(pen: Attrs, target: bool, rest: Seq<Seq<u16>>)
    ensures
        sgr(pen, switch_params(target, pen.italic, 3, 23) + rest) == sgr(
            Attrs { italic: target, ..pen },
            rest,
        ),
{
    switch_applies(pen, target, pen.italic, 3, 23, rest);
}

proof fn inverse_applies(pen: Attrs, target: bool, rest: Seq<Seq<u16>>)
    ensures
        sgr(pen, switch_params(target, pen.inverse, 7, 27) + rest) == sgr(
            Attrs { inverse: target, ..pen },
            rest,
        ),
{
    switch_applies(pen, target, pen.inverse, 7, 27, rest);
}

proof fn strikethrough_applies(pen: Attrs, target: bool, rest: Seq<Seq<u16>>)
    ensures
        sgr(pen, switch_params(target, pen.strikethrough, 9, 29) + rest) == sgr(
            Attrs { strikethrough: target, ..pen },
            rest,
        ),
{
    switch_applies(pen, target, pen.strikethrough, 9, 29, rest);
}

proof fn conceal_applies(pen: Attrs, target: bool, rest: Seq<Seq<u16>>)
    ensures
        sgr(pen, switch_params(target, pen.conceal, 8, 28) + rest) == sgr(
            Attrs { conceal: target, ..pen },
            rest,
        ),
{
    switch_applies(pen, target, pen.conceal, 8, 28, rest);
}

proof fn overline_applies(pen: Attrs, target: bool, rest: Seq<Seq<u16>>)
    ensures
        sgr(pen, switch_params(target, pen.overline, 53, 55) + rest) == sgr(
            Attrs { overline: target, ..pen },
            rest,
        ),
{
    switch_applies(pen, target, pen.overline, 53, 55, rest);
}

proof fn underline_applies(pen: Attrs, prev: Attrs, target: Attrs, rest: Seq<Seq<u16>>)
    requires
        pen.underline_style == prev.underline_style,
    ensures
        sgr(pen, underline_params(target, prev) + rest) == sgr(
            Attrs { underline_style: target.underline_style, ..pen },
            rest,
        ),
{
    reveal(underline_params);
    if target.underline_style == prev.underline_style {
        assert(underline_params(target, prev) + rest =~= rest);
    } else {
        match target.underline_style {
            UnderlineStyle::Off => sgr_one(pen, 24, rest),
            UnderlineStyle::Single => sgr_one(pen, 4, rest),
            UnderlineStyle::Double => sgr_pair(pen, 2, rest),
            UnderlineStyle::Curly => sgr_pair(pen, 3, rest),
            UnderlineStyle::Dotted => sgr_pair(pen, 4, rest),
            UnderlineStyle::Dashed => sgr_pair(pen, 5, rest),
        }
    }
}

proof fn underline_color_applies(pen: Attrs, prev: Attrs, target: Attrs, rest: Seq<Seq<u16>>)
    requires
        pen.underline_color == prev.underline_color,
    ensures
        sgr(pen, underline_color_params(target, prev) + rest) == sgr(
            Attrs { underline_color: target.underline_color, ..pen },
            rest,
        ),
{
    reveal(underline_color_params);
    if target.underline_color == prev.underline_color {
        assert(underline_color_params(target, prev) + rest =~= rest);
    } else if target.underline_color == Color::Default {
        sgr_one(pen, 59, rest);
    } else {
        sgr_long(pen, 58, target.underline_color, rest);
    }
}

proof fn blink_applies(pen: Attrs, prev: Attrs, target: Attrs, rest: Seq<Seq<u16>>)
    requires
        pen.slow_blink == prev.slow_blink,
        pen.rapid_blink == prev.rapid_blink,
    ensures
        sgr(pen, blink_params(target, prev) + rest) == sgr(
            Attrs { slow_blink: target.slow_blink, rapid_blink: target.rapid_blink, ..pen },
            rest,
        ),
{
    reveal(blink_params);
    if target.slow_blink == prev.slow_blink && target.rapid_blink == prev.rapid_blink {
        assert(blink_params(target, prev) + rest =~= rest);
    } else {
        let none = Seq::<Seq<u16>>::empty();
        let clear = if prev.slow_blink || prev.rapid_blink {
            one(25)
        } else {
            none
        };
        let slow = if target.slow_blink {
            one(5)
        } else {
            none
        };
        let rapid = if target.rapid_blink {
            one(6)
        } else {
            none
        };
        assert(blink_params(target, prev) + rest =~= clear + (slow + (rapid + rest)));
        let a = Attrs { slow_blink: false, rapid_blink: false, ..pen };
        let b = Attrs { slow_blink: target.slow_blink, ..a };
        if prev.slow_blink || prev.rapid_blink {
            sgr_one(pen, 25, slow + (rapid + rest));
        } else {
            assert(clear + (slow + (rapid + rest)) =~= slow + (rapid + rest));
        }
        if target.slow_blink {
            sgr_one(a, 5, rapid + rest);
        } else {
            assert(slow + (rapid + rest) =~= rapid + rest);
        }
        if target.rapid_blink {
            sgr_one(b, 6, rest);
        } else {
            assert(rapid + rest =~= rest);
        }
    }
}

type ParamSeq = Seq<Seq<u16>>;

proof fn regroup_tail(p5: ParamSeq, p6: ParamSeq, p7: ParamSeq, p8: ParamSeq, p9: ParamSeq, p10: ParamSeq)
    ensures
        p5 + p6 + p7 + p8 + p9 + p10 == p5 + (p6 + (p7 + (p8 + (p9 + (p10 + Seq::empty()))))),
{
    assert(p5 + p6 + p7 + p8 + p9 + p10 =~= p5 + (p6 + (p7 + (p8 + (p9 + (p10
        + Seq::empty()))))));
}

proof fn regroup_head(p0: ParamSeq, p1: ParamSeq, p2: ParamSeq, p3: ParamSeq, p4: ParamSeq, rest: ParamSeq)
    ensures
        p0 + p1 + p2 + p3 + p4 + rest == p0 + (p1 + (p2 + (p3 + (p4 + rest)))),
{
    assert(p0 + p1 + p2 + p3 + p4 + rest =~= p0 + (p1 + (p2 + (p3 + (p4 + rest)))));
}

proof fn regroup_middle(h: ParamSeq, p5: ParamSeq, p6: ParamSeq, p7: ParamSeq, p8: ParamSeq, p9: ParamSeq, p10: ParamSeq)
    ensures
        h + p5 + p6 + p7 + p8 + p9 + p10 == h + (p5 + p6 + p7 + p8 + p9 + p10),
{
    assert(h + p5 + p6 + p7 + p8 + p9 + p10 =~= h + (p5 + p6 + p7 + p8 + p9 + p10));
}

/// The first five groups of parameters, before others.
proof fn head_applies(target: Attrs, prev: Attrs, rest: ParamSeq)
    ensures
        sgr(
            prev,
            foreground_params(target, prev) + (background_params(target, prev) + (intensity_params(
                target,
                prev,
            ) + (switch_params(target.italic, prev.italic, 3, 23) + (underline_params(target, prev)
                + rest)))),
        ) == sgr(
            Attrs {
                foreground: target.foreground,
                background: target.background,
                bold: target.bold,
                dim: target.dim,
                italic: target.italic,
                underline_style: target.underline_style,
                ..prev
            },
            rest,
        ),
{
    let r4 = underline_params(target, prev) + rest;
    let r3 = switch_params(target.italic, prev.italic, 3, 23) + r4;
    let r2 = intensity_params(target, prev) + r3;
    let r1 = background_params(target, prev) + r2;
    let a0 = Attrs { foreground: target.foreground, ..prev };
    foreground_applies(prev, target, r1);
    let a1 = Attrs { background: target.background, ..a0 };
    background_applies(a0, prev, target, r2);
    let a2 = Attrs { bold: target.bold, dim: target.dim, ..a1 };
    intensity_applies(a1, prev, target, r3);
    let a3 = Attrs { italic: target.italic, ..a2 };
    italic_applies(a2, target.italic, r4);
    underline_applies(a3, prev, target, rest);
}

/// The next three groups of parameters, before others.
proof fn middle_applies(target: Attrs, prev: Attrs, pen: Attrs, rest: ParamSeq)
    requires
        pen.underline_color == prev.underline_color,
        pen.inverse == prev.inverse,
        pen.strikethrough == prev.strikethrough,
    ensures
        sgr(
            pen,
            underline_color_params(target, prev) + (switch_params(
                target.inverse,
                prev.inverse,
                7,
                27,
            ) + (switch_params(target.strikethrough, prev.strikethrough, 9, 29) + rest)),
        ) == sgr(
            Attrs {
                underline_color: target.underline_color,
                inverse: target.inverse,
                strikethrough: target.strikethrough,
                ..pen
            },
            rest,
        ),
{
    let r7 = switch_params(target.strikethrough, prev.strikethrough, 9, 29) + rest;
    let r6 = switch_params(target.inverse, prev.inverse, 7, 27) + r7;
    let a5 = Attrs { underline_color: target.underline_color, ..pen };
    underline_color_applies(pen, prev, target, r6);
    let a6 = Attrs { inverse: target.inverse, ..a5 };
    inverse_applies(a5, target.inverse, r7);
    strikethrough_applies(a6, target.strikethrough, rest);
}

/// The last three groups of parameters, before others.
proof fn last_applies(target: Attrs, prev: Attrs, pen: Attrs, rest: ParamSeq)
    requires
        pen.slow_blink == prev.slow_blink,
        pen.rapid_blink == prev.rapid_blink,
        pen.conceal == prev.conceal,
        pen.overline == prev.overline,
    ensures
        sgr(
            pen,
            blink_params(target, prev) + (switch_params(target.conceal, prev.conceal, 8, 28) + (
            switch_params(target.overline, prev.overline, 53, 55) + rest)),
        ) == sgr(
            Attrs {
                slow_blink: target.slow_blink,
                rapid_blink: target.rapid_blink,
                conceal: target.conceal,
                overline: target.overline,
                ..pen
            },
            rest,
        ),
{
    let r10 = switch_params(target.overline, prev.overline, 53, 55) + rest;
    let r9 = switch_params(target.conceal, prev.conceal, 8, 28) + r10;
    let a8 = Attrs { slow_blink: target.slow_blink, rapid_blink: target.rapid_blink, ..pen };
    blink_applies(pen, prev, target, r9);
    let a9 = Attrs { conceal: target.conceal, ..a8 };
    conceal_applies(a8, target.conceal, r10);
    overline_applies(a9, target.overline, rest);
}

proof fn sgr_none(pen: Attrs)
    ensures
        sgr(pen, Seq::empty()) == pen,
{
    reveal(sgr);
}

/// The parameters that turn the pen `prev` into `target` do so.
pub proof fn sgr_params_apply(target: Attrs, prev: Attrs)
    ensures
        sgr(prev, sgr_params(target, prev)) == target,
{
    let p0 = foreground_params(target, prev);
    let p1 = background_params(target, prev);
    let p2 = intensity_params(target, prev);
    let p3 = switch_params(target.italic, prev.italic, 3, 23);
    let p4 = underline_params(target, prev);
    let p5 = underline_color_params(target, prev);
    let p6 = switch_params(target.inverse, prev.inverse, 7, 27);
    let p7 = switch_params(target.strikethrough, prev.strikethrough, 9, 29);
    let p8 = blink_params(target, prev);
    let p9 = switch_params(target.conceal, prev.conceal, 8, 28);
    let p10 = switch_params(target.overline, prev.overline, 53, 55);
    let tail = p5 + p6 + p7 + p8 + p9 + p10;
    regroup_middle(p0 + p1 + p2 + p3 + p4, p5, p6, p7, p8, p9, p10);
    regroup_head(p0, p1, p2, p3, p4, tail);
    regroup_tail(p5, p6, p7, p8, p9, p10);
    let pen = Attrs {
        foreground: target.foreground,
        background: target.background,
        bold: target.bold,
        dim: target.dim,
        italic: target.italic,
        underline_style: target.underline_style,
        ..prev
    };
    head_applies(target, prev, tail);
    let r8 = p8 + (p9 + (p10 + Seq::empty()));
    middle_applies(target, prev, pen, r8);
    let pen2 = Attrs {
        underline_color: target.underline_color,
        inverse: target.inverse,
        strikethrough: target.strikethrough,
        ..pen
    };
    last_applies(target, prev, pen2, Seq::empty());
    sgr_none(target);
}

/// Parameters that each hold a value, and `n` values at most.
#[verifier::opaque]
spec fn few(params: Seq<Seq<u16>>, n: int) -> bool {
    &&& forall|i: int| 0 <= i < params.len() ==> (#[trigger] params[i]).len() >= 1
    &&& value_count(params) <= n
}

proof fn value_count_concat(a: Seq<Seq<u16>>, b: Seq<Seq<u16>>)
    ensures
        value_count(a + b) == value_count(a) + value_count(b),
    decreases b.len(),
{
    if b.len() == 0 {
        assert(a + b =~= a);
    } else {
        value_count_concat(a, b.drop_last());
        assert((a + b).drop_last() =~= a + b.drop_last());
    }
}

proof fn few_concat(a: Seq<Seq<u16>>, n: int, b: Seq<Seq<u16>>, m: int)
    requires
        few(a, n),
        few(b, m),
    ensures
        few(a + b, n + m),
{
    reveal(few);
    value_count_concat(a, b);
}

proof fn few_one(code: int)
    ensures
        few(one(code), 1),
        few(Seq::empty(), 0),
{
    reveal(few);
    reveal_with_fuel(value_count, 2);
    assert(one(code).drop_last() =~= Seq::empty());
}

proof fn few_pair(style: u16)
    ensures
        few(seq![seq![4u16, style]], 2),
{
    reveal(few);
    reveal_with_fuel(value_count, 2);
    assert(seq![seq![4u16, style]].drop_last() =~= Seq::empty());
}

proof fn few_long(code: int, color: Color)
    ensures
        few(long_color(code, color), 5),
{
    reveal(few);
    few_one(code);
    match color {
        Color::Default => {},
        Color::Idx(i) => {
            few_one(5);
            few_one(i as int);
            few_concat(one(code), 1, one(5), 1);
            few_concat(one(code) + one(5), 2, one(i as int), 1);
        },
        Color::Rgb(r, g, b) => {
            few_one(2);
            few_one(r as int);
            few_one(g as int);
            few_one(b as int);
            few_concat(one(code), 1, one(2), 1);
            few_concat(one(code) + one(2), 2, one(r as int), 1);
            few_concat(one(code) + one(2) + one(r as int), 3, one(g as int), 1);
            few_concat(
                one(code) + one(2) + one(r as int) + one(g as int),
                4,
                one(b as int),
                1,
            );
        },
    }
}

proof fn few_switch(target: bool, prev: bool, on: int, off: int)
    ensures
        few(switch_params(target, prev, on, off), 1),
{
    reveal(switch_params);
    reveal(few);
    few_one(on);
    few_one(off);
}

proof fn few_colors(target: Attrs, prev: Attrs)
    ensures
        few(foreground_params(target, prev), 5),
        few(background_params(target, prev), 5),
        few(underline_color_params(target, prev), 5),
{
    reveal(foreground_params);
    reveal(background_params);
    reveal(underline_color_params);
    reveal(few);
    few_one(39);
    few_one(49);
    few_one(59);
    few_long(38, target.foreground);
    few_long(48, target.background);
    few_long(58, target.underline_color);
    if let Color::Idx(i) = target.foreground {
        few_one(i + 30);
        few_one(i + 82);
    }
    if let Color::Idx(i) = target.background {
        few_one(i + 40);
        few_one(i + 92);
    }
}

proof fn few_groups(target: Attrs, prev: Attrs)
    ensures
        few(intensity_params(target, prev), 2),
        few(underline_params(target, prev), 2),
        few(blink_params(target, prev), 3),
{
    reveal(intensity_params);
    reveal(underline_params);
    reveal(blink_params);
    reveal(few);
    let none = Seq::<Seq<u16>>::empty();
    few_one(1);
    few_one(2);
    few_one(4);
    few_one(5);
    few_one(6);
    few_one(22);
    few_one(24);
    few_one(25);
    few_concat(one(1), 1, one(2), 1);
    few_concat(one(22), 1, one(1), 1);
    few_concat(one(22), 1, one(2), 1);
    few_pair(2);
    few_pair(3);
    few_pair(4);
    few_pair(5);
    let clear = if prev.slow_blink || prev.rapid_blink {
        one(25)
    } else {
        none
    };
    let slow = if target.slow_blink {
        one(5)
    } else {
        none
    };
    let rapid = if target.rapid_blink {
        one(6)
    } else {
        none
    };
    few_concat(clear, 1, slow, 1);
    few_concat(clear + slow, 2, rapid, 1);
}

/// The parameters that turn one pen into another are few enough for a parser
/// to keep them all.
pub proof fn sgr_params_fit(target: Attrs, prev: Attrs)
    ensures
        item_wf(csi_item(sgr_params(target, prev), 'm')),
        item_wf(csi_item(seq![], 'm')),
{
    let p0 = foreground_params(target, prev);
    let p1 = background_params(target, prev);
    let p2 = intensity_params(target, prev);
    let p3 = switch_params(target.italic, prev.italic, 3, 23);
    let p4 = underline_params(target, prev);
    let p5 = underline_color_params(target, prev);
    let p6 = switch_params(target.inverse, prev.inverse, 7, 27);
    let p7 = switch_params(target.strikethrough, prev.strikethrough, 9, 29);
    let p8 = blink_params(target, prev);
    let p9 = switch_params(target.conceal, prev.conceal, 8, 28);
    let p10 = switch_params(target.overline, prev.overline, 53, 55);
    few_colors(target, prev);
    few_groups(target, prev);
    few_switch(target.italic, prev.italic, 3, 23);
    few_switch(target.inverse, prev.inverse, 7, 27);
    few_switch(target.strikethrough, prev.strikethrough, 9, 29);
    few_switch(target.conceal, prev.conceal, 8, 28);
    few_switch(target.overline, prev.overline, 53, 55);
    few_concat(p0, 5, p1, 5);
    few_concat(p0 + p1, 10, p2, 2);
    few_concat(p0 + p1 + p2, 12, p3, 1);
    few_concat(p0 + p1 + p2 + p3, 13, p4, 2);
    few_concat(p0 + p1 + p2 + p3 + p4, 15, p5, 5);
    few_concat(p0 + p1 + p2 + p3 + p4 + p5, 20, p6, 1);
    few_concat(p0 + p1 + p2 + p3 + p4 + p5 + p6, 21, p7, 1);
    few_concat(p0 + p1 + p2 + p3 + p4 + p5 + p6 + p7, 22, p8, 3);
    few_concat(p0 + p1 + p2 + p3 + p4 + p5 + p6 + p7 + p8, 25, p9, 1);
    few_concat(p0 + p1 + p2 + p3 + p4 + p5 + p6 + p7 + p8 + p9, 26, p10, 1);
    reveal(few);
    assert(value_count(Seq::<Seq<u16>>::empty()) == 0);
}

} // verus!
