//! CSI reconstruction and SGR parsing.

use crate::bytes::{decimal, push_bytes, write_u16};
use crate::cell::{plain_attrs, Attrs, Color, UnderlineStyle};
use crate::params::{first_value, params_view};
use crate::state::{
    channel, color_at, color_values, csi_bytes, first_of, params_bytes, sgr, sgr_simple,
    subparam_bytes, underline_style,
};
use vstd::prelude::*;

verus! {

fn write_subparams(out: &mut Vec<u8>, param: &Vec<u16>)
    ensures
        final(out)@ == old(out)@ + subparam_bytes(param@),
{
    let ghost start = out@;
    let mut i: usize = 0;
    assert(param@.take(0) =~= Seq::empty());
    assert(out@ =~= start + subparam_bytes(param@.take(0)));
    while i < param.len()
        invariant
            i <= param@.len(),
            out@ == start + subparam_bytes(param@.take(i as int)),
        decreases param@.len() - i,
    {
        let ghost before = param@.take(i as int);
        if i > 0 {
            out.push(0x3a);
        }
        write_u16(out, param[i]);
        i = i + 1;
        proof {
            let now = param@.take(i as int);
            assert(now.drop_last() =~= before);
            assert(now.last() == param@[i - 1]);
            if i == 1 {
                assert(before =~= Seq::empty());
                assert(now[0] == param@[0]);
                assert(out@ =~= start + decimal(param@[0] as nat));
            } else {
                assert(out@ =~= start + (subparam_bytes(before).push(0x3a) + decimal(
                    param@[i - 1] as nat,
                )));
            }
        }
    }
    assert(param@.take(i as int) =~= param@);
}

fn write_params(out: &mut Vec<u8>, params: &[Vec<u16>])
    ensures
        final(out)@ == old(out)@ + params_bytes(params_view(params@)),
{
    let ghost start = out@;
    let ghost all = params_view(params@);
    let mut i: usize = 0;
    assert(all.take(0) =~= Seq::empty());
    assert(out@ =~= start + params_bytes(all.take(0)));
    while i < params.len()
        invariant
            i <= params@.len(),
            all == params_view(params@),
            out@ == start + params_bytes(all.take(i as int)),
        decreases params@.len() - i,
    {
        let ghost before = all.take(i as int);
        if i > 0 {
            out.push(0x3b);
        }
        write_subparams(out, &params[i]);
        i = i + 1;
        proof {
            let now = all.take(i as int);
            assert(now.drop_last() =~= before);
            assert(now.last() == params@[i - 1]@);
            if i == 1 {
                assert(before =~= Seq::empty());
                assert(now[0] == params@[0]@);
                assert(out@ =~= start + subparam_bytes(now[0]));
            } else {
                assert(out@ =~= start + (params_bytes(before).push(0x3b) + subparam_bytes(
                    now.last(),
                )));
            }
        }
    }
    assert(all.take(i as int) =~= all);
}

/// Rebuild a CSI sequence as bytes for passthrough or diagnostics.
pub fn reconstruct_csi(params: &[Vec<u16>], intermediates: &[u8], final_byte: u8) -> (r: Vec<u8>)
    ensures
        r@ == csi_bytes(params_view(params@), intermediates@, final_byte),
{
    let mut buf: Vec<u8> = vec![0x1b, 0x5b];
    push_bytes(&mut buf, intermediates);
    write_params(&mut buf, params);
    buf.push(final_byte);
    assert(buf@ =~= csi_bytes(params_view(params@), intermediates@, final_byte));
    buf
}

/// Underline style of SGR `4:n`; an unknown style is a single underline.
pub fn underline_style_from_sgr(style: u16) -> (r: UnderlineStyle)
    ensures
        r == underline_style(style),
{
    match style {
        0 => UnderlineStyle::Off,
        2 => UnderlineStyle::Double,
        3 => UnderlineStyle::Curly,
        4 => UnderlineStyle::Dotted,
        5 => UnderlineStyle::Dashed,
        _ => UnderlineStyle::Single,
    }
}

fn clamp_channel(n: u16) -> (r: u8)
    ensures
        r == channel(n),
{
    if n > 255 {
        255
    } else {
        n as u8
    }
}

/// The color that the parameter `current`, at index `i`, selects, and the index
/// of the last parameter that it takes.
pub open spec fn sgr_color_from(current: Seq<u16>, params: Seq<Seq<u16>>, i: int) -> (
    Option<Color>,
    int,
) {
    if current.len() > 1 {
        (color_values(current.skip(1)), i)
    } else if i + 2 < params.len() && first_of(params[i + 1]) == 5 {
        (Some(Color::Idx(channel(first_of(params[i + 2])))), i + 2)
    } else if i + 4 < params.len() && first_of(params[i + 1]) == 2 {
        (
            Some(
                Color::Rgb(
                    channel(first_of(params[i + 2])),
                    channel(first_of(params[i + 3])),
                    channel(first_of(params[i + 4])),
                ),
            ),
            i + 4,
        )
    } else {
        (None, i)
    }
}

/// Parse extended color from either colon subparameters (`38:2:r:g:b`) or
/// semicolon parameters (`38;2;r;g;b`). Advances `i` for semicolon forms.
pub fn parse_sgr_color(current: &[u16], params: &[Vec<u16>], i: &mut usize) -> (r: Option<Color>)
    ensures
        (r, *final(i) as int) == sgr_color_from(current@, params_view(params@), *old(i) as int),
{
    if current.len() > 1 {
        let values = vstd::slice::slice_subrange(current, 1, current.len());
        assert(values@ =~= current@.skip(1));
        return parse_sgr_color_values(values);
    }
    if *i >= params.len() {
        return None;
    }
    let left: usize = params.len() - *i;
    if left < 2 {
        return None;
    }
    let mode: u16 = first_value(&params[*i + 1]);
    match mode {
        5 => {
            if left > 2 {
                let idx: u8 = clamp_channel(first_value(&params[*i + 2]));
                *i = *i + 2;
                Some(Color::Idx(idx))
            } else {
                None
            }
        },
        2 => {
            if left > 4 {
                let r: u8 = clamp_channel(first_value(&params[*i + 2]));
                let g: u8 = clamp_channel(first_value(&params[*i + 3]));
                let b: u8 = clamp_channel(first_value(&params[*i + 4]));
                *i = *i + 4;
                Some(Color::Rgb(r, g, b))
            } else {
                None
            }
        },
        _ => None,
    }
}

/// Parse extended color from a flat SGR value list (`5;idx` or `2;r;g;b`).
pub fn parse_sgr_color_values(values: &[u16]) -> (r: Option<Color>)
    ensures
        r == color_values(values@),
{
    if values.len() == 0 {
        return None;
    }
    match values[0] {
        5 => {
            if values.len() > 1 {
                Some(Color::Idx(clamp_channel(values[1])))
            } else {
                None
            }
        },
        2 => {
            let start: usize = if values.len() >= 5 && values[1] == 0 {
                2
            } else {
                1
            };
            if start + 2 < values.len() {
                Some(
                    Color::Rgb(
                        clamp_channel(values[start]),
                        clamp_channel(values[start + 1]),
                        clamp_channel(values[start + 2]),
                    ),
                )
            } else {
                None
            }
        },
        _ => None,
    }
}

/// The pen after one SGR parameter other than an extended color.
fn simple_sgr(pen: Attrs, param: &Vec<u16>) -> (r: Attrs)
    ensures
        r == sgr_simple(pen, param@),
{
    let code: u16 = first_value(param);
    match code {
        0 => Attrs::default(),
        1 => Attrs { bold: true, ..pen },
        2 => Attrs { dim: true, ..pen },
        3 => Attrs { italic: true, ..pen },
        4 => Attrs {
            underline_style: if param.len() > 1 {
                underline_style_from_sgr(param[1])
            } else {
                UnderlineStyle::Single
            },
            ..pen
        },
        5 => Attrs { slow_blink: true, ..pen },
        6 => Attrs { rapid_blink: true, ..pen },
        7 => Attrs { inverse: true, ..pen },
        8 => Attrs { conceal: true, ..pen },
        9 => Attrs { strikethrough: true, ..pen },
        21 => Attrs { underline_style: UnderlineStyle::Double, ..pen },
        22 => Attrs { bold: false, dim: false, ..pen },
        23 => Attrs { italic: false, ..pen },
        24 => Attrs { underline_style: UnderlineStyle::Off, ..pen },
        25 => Attrs { slow_blink: false, rapid_blink: false, ..pen },
        27 => Attrs { inverse: false, ..pen },
        28 => Attrs { conceal: false, ..pen },
        29 => Attrs { strikethrough: false, ..pen },
        39 => Attrs { foreground: Color::Default, ..pen },
        49 => Attrs { background: Color::Default, ..pen },
        53 => Attrs { overline: true, ..pen },
        55 => Attrs { overline: false, ..pen },
        59 => Attrs { underline_color: Color::Default, ..pen },
        _ => {
            if 30 <= code && code <= 37 {
                Attrs { foreground: Color::Idx((code - 30) as u8), ..pen }
            } else if 40 <= code && code <= 47 {
                Attrs { background: Color::Idx((code - 40) as u8), ..pen }
            } else if 90 <= code && code <= 97 {
                Attrs { foreground: Color::Idx((code - 82) as u8), ..pen }
            } else if 100 <= code && code <= 107 {
                Attrs { background: Color::Idx((code - 92) as u8), ..pen }
            } else {
                pen
            }
        },
    }
}

/// Applies SGR parameters to the pen, in order. Without any, the pen is reset.
pub fn apply_sgr_params(pen: &mut Attrs, params: &[Vec<u16>])
    ensures
        *final(pen) == if params@.len() == 0 {
            plain_attrs()
        } else {
            sgr(*old(pen), params_view(params@))
        },
{
    let ghost all = params_view(params@);
    let ghost start = *pen;
    if params.len() == 0 {
        *pen = Attrs::default();
        return ;
    }
    let mut i: usize = 0;
    assert(all.skip(0) =~= all);
    while i < params.len()
        invariant
            i <= params@.len(),
            all == params_view(params@),
            sgr(*pen, all.skip(i as int)) == sgr(start, all),
        decreases params@.len() - i,
    {
        let param = &params[i];
        let code: u16 = first_value(param);
        let ghost rest = all.skip(i as int);
        let ghost at = i as int;
        let ghost was = *pen;
        assert(rest[0] == param@);
        if code == 38 || code == 48 || code == 58 {
            let color = parse_sgr_color(param.as_slice(), params, &mut i);
            i = i + 1;
            proof {
                reveal(sgr);
                assert(forall|k: int| 0 <= k < rest.len() ==> rest[k] == all[at + k]);
                assert((color, i - at) == color_at(rest));
                assert(rest.skip(i - at) =~= all.skip(i as int));
            }
            if let Some(color) = color {
                match code {
                    38 => {
                        pen.foreground = color;
                    },
                    48 => {
                        pen.background = color;
                    },
                    _ => {
                        pen.underline_color = color;
                    },
                }
            }
        } else {
            *pen = simple_sgr(*pen, param);
            proof {
                reveal(sgr);
                assert(rest.skip(1) =~= all.skip(at + 1));
            }
            i = i + 1;
        }
    }
    proof {
        reveal(sgr);
        assert(all.skip(i as int) =~= Seq::empty());
    }
}

} // verus!
