//! How many columns text takes, what the row helpers do cell by cell, and which
//! attributes a profile admits.

use crate::cell::{Attrs, CellV, Color, UnderlineStyle};
use crate::editing::bare;
use crate::model::repaired;
use crate::parse::sgr_color_from;
use crate::settings::nothing_set;
use crate::state::{color_values, fresh};
use crate::width::{
    attrs_within, char_columns, cluster_columns, entry_columns, is_baseline, summed_columns,
    unicode_char_width, unicode_str_width, voicing_marks, VirtualTerminalProfile,
};
use crate::write::{bce_erased, width_set};
use vstd::prelude::*;

verus! {

// ── Widths ──────────────────────────────────────────────────────────────────

/// An entry of the width table stands for as many columns, two at most; a
/// character without an entry takes one.
pub proof fn entries_are_columns(ch: char, width: usize)
    ensures
        entry_columns(None) == 1,
        entry_columns(Some(0usize)) == 0,
        entry_columns(Some(1usize)) == 1,
        width >= 2 ==> entry_columns(Some(width)) == 2,
        ' ' <= ch && ch <= '~' ==> char_columns(ch) == 1,
        !(' ' <= ch && ch <= '~') ==> char_columns(ch) == entry_columns(unicode_char_width(ch)),
        0 <= char_columns(ch) <= 2,
{
}

/// A cluster takes the columns of its string and one for each halfwidth voicing
/// mark, two at most; no text takes none.
pub proof fn clusters_are_columns(text: Seq<char>, width: int, marks: int)
    requires
        0 <= width < 0x1_0000,
        0 <= marks < 0x1_0000,
    ensures
        width + marks <= 2 ==> summed_columns(width, marks) == width + marks,
        width + marks > 2 ==> summed_columns(width, marks) == 2,
        cluster_columns(Seq::empty()) == 0,
        text.len() > 0 ==> cluster_columns(text) == summed_columns(
            unicode_str_width(text) as int,
            voicing_marks(text) as int,
        ),
{
}

/// The voicing marks of a text are counted one by one.
pub proof fn voicing_marks_are_counted(text: Seq<char>, ch: char)
    ensures
        voicing_marks(Seq::empty()) == 0,
        voicing_marks(text.push(ch)) == voicing_marks(text) + if ch == '\u{ff9e}' || ch
            == '\u{ff9f}' {
            1int
        } else {
            0
        },
{
    reveal(Seq::filter);
    assert(text.push(ch).drop_last() =~= text);
    assert(text.push(ch).last() == ch);
}

// ── Attributes ──────────────────────────────────────────────────────────────

/// Nothing set needs no feature. Bold, dim and italic need their own features
/// and no others: setting one is admitted exactly if the rest is and its bit is
/// there.
pub proof fn weights_need_their_bits(flags: u16, a: Attrs)
    ensures
        attrs_within(flags, nothing_set()),
        attrs_within(flags, Attrs { bold: true, ..a }) == (attrs_within(
            flags,
            Attrs { bold: false, ..a },
        ) && flags & 0x1 != 0),
        attrs_within(flags, Attrs { dim: true, ..a }) == (attrs_within(
            flags,
            Attrs { dim: false, ..a },
        ) && flags & 0x2 != 0),
        attrs_within(flags, Attrs { italic: true, ..a }) == (attrs_within(
            flags,
            Attrs { italic: false, ..a },
        ) && flags & 0x4 != 0),
{
}

/// So do inverse, strikethrough, concealed and overlined text.
pub proof fn decorations_need_their_bits(flags: u16, a: Attrs)
    ensures
        attrs_within(flags, Attrs { inverse: true, ..a }) == (attrs_within(
            flags,
            Attrs { inverse: false, ..a },
        ) && flags & 0x40 != 0),
        attrs_within(flags, Attrs { strikethrough: true, ..a }) == (attrs_within(
            flags,
            Attrs { strikethrough: false, ..a },
        ) && flags & 0x80 != 0),
        attrs_within(flags, Attrs { conceal: true, ..a }) == (attrs_within(
            flags,
            Attrs { conceal: false, ..a },
        ) && flags & 0x200 != 0),
        attrs_within(flags, Attrs { overline: true, ..a }) == (attrs_within(
            flags,
            Attrs { overline: false, ..a },
        ) && flags & 0x400 != 0),
{
}

/// Both kinds of blinking need the one feature.
pub proof fn blinking_needs_its_bit(flags: u16, a: Attrs)
    ensures
        attrs_within(flags, Attrs { slow_blink: true, ..a }) == (attrs_within(
            flags,
            Attrs { slow_blink: false, rapid_blink: false, ..a },
        ) && flags & 0x100 != 0),
        attrs_within(flags, Attrs { rapid_blink: true, ..a }) == (attrs_within(
            flags,
            Attrs { slow_blink: false, rapid_blink: false, ..a },
        ) && flags & 0x100 != 0),
{
}

/// The baseline profile admits every attribute, reports the colors that a new grid
/// reports, and declines to count columns by grapheme cluster.
pub proof fn baseline_admits_everything(p: VirtualTerminalProfile, a: Attrs)
    requires
        is_baseline(p),
    ensures
        attrs_within(p.supported_sgr.flags, a),
        p.default_reported_fg == fresh(1, 1, 0).fg,
        p.default_reported_bg == fresh(1, 1, 0).bg,
        p.decrqm_mode_2027_status == 0,
        !p.grapheme_cluster_width_mode,
        !p.ambiguous_width_is_wide,
{
    assert(0x1fffu16 & 0x1 != 0 && 0x1fffu16 & 0x2 != 0 && 0x1fffu16 & 0x4 != 0 && 0x1fffu16 & 0x8
        != 0 && 0x1fffu16 & 0x10 != 0 && 0x1fffu16 & 0x20 != 0 && 0x1fffu16 & 0x40 != 0 && 0x1fffu16
        & 0x80 != 0 && 0x1fffu16 & 0x100 != 0 && 0x1fffu16 & 0x200 != 0 && 0x1fffu16 & 0x400 != 0
        && 0x1fffu16 & 0x800 != 0 && 0x1fffu16 & 0x1000 != 0) by (bit_vector);
}

/// Underlines need underline support, those with a style of their own that of
/// styles too, and their color that of underline colors; palette colors need the
/// palette, direct colors truecolor.
pub proof fn colors_need_their_bits(flags: u16, a: Attrs, n: u8, m: u8, k: u8)
    ensures
        attrs_within(flags, Attrs { underline_style: UnderlineStyle::Single, ..a }) == (attrs_within(
            flags,
            Attrs { underline_style: UnderlineStyle::Off, ..a },
        ) && flags & 0x8 != 0),
        a.underline_style != UnderlineStyle::Off && a.underline_style != UnderlineStyle::Single
            ==> attrs_within(flags, a) == (attrs_within(
            flags,
            Attrs { underline_style: UnderlineStyle::Single, ..a },
        ) && flags & 0x10 != 0),
        a.underline_color != Color::Default ==> attrs_within(flags, a) == (attrs_within(
            flags,
            Attrs { underline_color: Color::Default, ..a },
        ) && flags & 0x20 != 0),
        attrs_within(flags, Attrs { foreground: Color::Idx(n), ..a }) == (attrs_within(
            flags,
            Attrs { foreground: Color::Default, ..a },
        ) && flags & 0x800 != 0),
        attrs_within(flags, Attrs { background: Color::Idx(n), ..a }) == (attrs_within(
            flags,
            Attrs { background: Color::Default, ..a },
        ) && flags & 0x800 != 0),
        attrs_within(flags, Attrs { foreground: Color::Rgb(n, m, k), ..a }) == (attrs_within(
            flags,
            Attrs { foreground: Color::Default, ..a },
        ) && flags & 0x1000 != 0),
        attrs_within(flags, Attrs { background: Color::Rgb(n, m, k), ..a }) == (attrs_within(
            flags,
            Attrs { background: Color::Default, ..a },
        ) && flags & 0x1000 != 0),
{
}

/// The color that a list of values stands for: an index behind a five; red, green
/// and blue behind a two, with a zero before them where there are more than three
/// values; otherwise none.
pub proof fn values_are_colors(values: Seq<u16>)
    ensures
        values.len() == 0 ==> color_values(values) is None,
        values.len() == 1 ==> color_values(values) is None,
        values.len() > 0 && values[0] != 2 && values[0] != 5 ==> color_values(values) is None,
        values.len() >= 2 && values[0] == 5 && values[1] <= 255 ==> color_values(values) == Some(
            Color::Idx(values[1] as u8),
        ),
        values.len() >= 2 && values[0] == 5 && values[1] > 255 ==> color_values(values) == Some(
            Color::Idx(255u8),
        ),
        values.len() < 4 && values.len() > 0 && values[0] == 2 ==> color_values(values) is None,
        values.len() == 4 && values[0] == 2 && values[1] <= 255 && values[2] <= 255 && values[3]
            <= 255 ==> color_values(values) == Some(
            Color::Rgb(values[1] as u8, values[2] as u8, values[3] as u8),
        ),
        values.len() >= 5 && values[0] == 2 && values[1] == 0 && values[2] <= 255 && values[3] <= 255
            && values[4] <= 255 ==> color_values(values) == Some(
            Color::Rgb(values[2] as u8, values[3] as u8, values[4] as u8),
        ),
        values.len() >= 5 && values[0] == 2 && 0 < values[1] <= 255 && values[2] <= 255 && values[3]
            <= 255 ==> color_values(values) == Some(
            Color::Rgb(values[1] as u8, values[2] as u8, values[3] as u8),
        ),
{
}

/// The color that a parameter selects: out of its own colon values, with no other
/// parameter taken; else out of the parameters that follow it, an index behind a
/// five or three channels behind a two, which are taken; else none.
pub proof fn parameters_are_colors(current: Seq<u16>, params: Seq<Seq<u16>>, i: int)
    requires
        0 <= i < params.len(),
        forall|k: int| 0 <= k < params.len() ==> (#[trigger] params[k]).len() > 0,
    ensures
        ({
            let (color, end) = sgr_color_from(current, params, i);
            let left = params.len() - i;
            let mode = params[i + 1][0];
            &&& current.len() > 1 ==> color == color_values(current.skip(1)) && end == i
            &&& current.len() <= 1 && left >= 3 && mode == 5 && params[i + 2][0] <= 255 ==> color
                == Some(Color::Idx(params[i + 2][0] as u8)) && end == i + 2
            &&& current.len() <= 1 && left >= 5 && mode == 2 && params[i + 2][0] <= 255 && params[i
                + 3][0] <= 255 && params[i + 4][0] <= 255 ==> color == Some(
                Color::Rgb(
                    params[i + 2][0] as u8,
                    params[i + 3][0] as u8,
                    params[i + 4][0] as u8,
                ),
            ) && end == i + 4
            &&& current.len() <= 1 && (left < 3 || (mode != 2 && mode != 5) || (mode == 2 && left
                < 5)) ==> color is None && end == i
        }),
{
    if i + 1 < params.len() {
        assert(params[i + 1].len() > 0);
    }
    if i + 2 < params.len() {
        assert(params[i + 2].len() > 0);
    }
    if i + 4 < params.len() {
        assert(params[i + 3].len() > 0);
        assert(params[i + 4].len() > 0);
    }
}

// ── Row helpers ─────────────────────────────────────────────────────────────

/// Erasing a stretch of a row makes it the given blank, takes with it the other
/// half of a wide cell that either end cuts in two, and leaves the rest.
pub proof fn erasing_takes_whole_cells(cells: Seq<CellV>, start: int, end: int, blank: CellV, i: int)
    requires
        0 <= start <= end <= cells.len(),
        0 <= i < cells.len(),
    ensures
        bce_erased(cells, start, end, blank).len() == cells.len(),
        start <= i < end ==> bce_erased(cells, start, end, blank)[i] == blank,
        i == start - 1 && start < cells.len() && cells[start].is_wide_continuation ==> bce_erased(
            cells,
            start,
            end,
            blank,
        )[i] == blank,
        i == end && start < end && cells[end - 1].is_wide ==> bce_erased(cells, start, end, blank)[i]
            == blank,
        (i < start - 1 || (i == start - 1 && start < cells.len()
            && !cells[start].is_wide_continuation) || (i == end && start < end && !cells[end
            - 1].is_wide) || i > end) ==> bce_erased(cells, start, end, blank)[i] == cells[i],
{
}

/// Giving a cell a width sets its flag and leaves its text, attributes and link;
/// a wide one gets a second column that carries the given attributes and takes
/// the place of what stood there, and a narrow one loses the second column it
/// had. No other cell changes but the orphaned half of what was overwritten.
pub proof fn widths_are_set(cells: Seq<CellV>, col: int, width: int, attrs: Attrs, cols: int, i: int)
    requires
        0 <= col < cells.len(),
        0 <= i < cells.len(),
    ensures
        ({
            let done = width_set(cells, col, width, attrs, cols);
            &&& done.len() == cells.len()
            &&& done[col] == (CellV {
                is_wide: width > 1,
                is_wide_continuation: false,
                ..cells[col]
            })
            &&& i == col + 1 && i < cols && width > 1 ==> done[i] == (CellV {
                contents: Seq::empty(),
                is_wide: false,
                is_wide_continuation: true,
                hyperlink_id: cells[col].hyperlink_id,
                attrs,
                hyperlink: cells[col].hyperlink,
            })
            &&& i == col + 1 && i < cols && width <= 1 && cells[i].is_wide_continuation ==> done[i]
                == bare(Color::Default)
            &&& i == col + 1 && i < cols && width <= 1 && !cells[i].is_wide_continuation ==> done[i]
                == cells[i]
            &&& i == col + 2 && i < cols && width > 1 && cells[col + 1].is_wide ==> done[i] == bare(
                Color::Default,
            )
            &&& i == col + 2 && (width <= 1 || !cells[col + 1].is_wide) ==> done[i] == cells[i]
            &&& i < col || i > col + 2 || (i > col && i >= cols) ==> done[i] == cells[i]
        }),
{
}

/// Repairing a row blanks a second column without its wide cell, and a wide cell
/// without its second column, and leaves the rest.
pub proof fn repairs_blank_orphans(cells: Seq<CellV>, i: int)
    requires
        0 <= i < cells.len(),
    ensures
        ({
            let done = repaired(cells);
            &&& done.len() == cells.len()
            &&& cells[i].is_wide_continuation && (i == 0 || !cells[i - 1].is_wide) ==> done[i]
                == bare(Color::Default)
            &&& cells[i].is_wide && (i + 1 == cells.len() || !cells[i + 1].is_wide_continuation)
                ==> done[i] == bare(Color::Default)
            &&& !cells[i].is_wide && !cells[i].is_wide_continuation ==> done[i] == cells[i]
            &&& cells[i].is_wide && !cells[i].is_wide_continuation && i + 1 < cells.len() && cells[i
                + 1].is_wide_continuation ==> done[i] == cells[i]
            &&& cells[i].is_wide_continuation && !cells[i].is_wide && i > 0 && cells[i - 1].is_wide
                ==> done[i] == cells[i]
        }),
{
}

} // verus!
