//! Stable virtual-terminal display-width contract.
//!
//! This module is the authority for cell width as programs see it.

use crate::cell::{Attrs, Color, UnderlineStyle};
use vstd::prelude::*;

verus! {

/// What `unicode-width` gives as the width of one character.
pub uninterp spec fn unicode_char_width(ch: char) -> Option<usize>;

/// What `unicode-width` gives as the width of a string.
pub uninterp spec fn unicode_str_width(text: Seq<char>) -> usize;

/// Whether `ch` is a C0 or C1 control character or DEL.
pub open spec fn is_control(ch: char) -> bool {
    ch < ' ' || ('\u{7f}' <= ch && ch < '\u{a0}')
}

/// `UnicodeWidthChar::width`: a fixed function of the character. It is `None`
/// exactly for control characters, and one column for printable ASCII.
#[verifier::external_body]
fn unicode_width_of_char(ch: char) -> (r: Option<usize>)
    ensures
        r == unicode_char_width(ch),
        r is None == is_control(ch),
        ' ' <= ch && ch <= '~' ==> r == Some(1usize),
{
    unicode_width::UnicodeWidthChar::width(ch)
}

/// `UnicodeWidthStr::width`: a fixed function of the characters.
#[verifier::external_body]
fn unicode_width_of_str(text: &str) -> (r: usize)
    ensures
        r == unicode_str_width(text@),
{
    unicode_width::UnicodeWidthStr::width(text)
}

/// Stable per-session terminal profile.
#[derive(Debug, Clone, Copy, PartialEq, Eq)]
pub struct VirtualTerminalProfile {
    /// Identifier for the width-table source (crate + version), not a Unicode
    /// standard version string.
    pub unicode_version: &'static str,
    /// Intended flag for whether mode-2027 grapheme-cluster width is active.
    /// Currently inert: no width function consults it; `false` is the
    /// legacy-cell-width default. The DECRQM reply value itself is owned by
    /// `decrqm_mode_2027_status`.
    pub grapheme_cluster_width_mode: bool,
    /// Whether East Asian Ambiguous code points are treated as two columns.
    pub ambiguous_width_is_wide: bool,
    /// DECRQM reply for private mode 2027 (grapheme-cluster width).
    pub decrqm_mode_2027_status: u16,
    /// Default OSC 10 foreground RGB reported to the agent.
    pub default_reported_fg: (u8, u8, u8),
    /// Default OSC 11 background RGB reported to the agent.
    pub default_reported_bg: (u8, u8, u8),
    /// `$TERM` value advertised to the agent PTY environment.
    pub agent_term: &'static str,
    /// `$COLORTERM` value advertised to the agent PTY environment.
    pub agent_colorterm: &'static str,
    /// How OSC 8 hyperlinks are modeled.
    pub osc8_policy: Osc8Policy,
    /// SGR features the virtual terminal claims to support.
    pub supported_sgr: SupportedSgr,
}

/// The baseline profile: every SGR feature, narrow ambiguous characters, no
/// grapheme-cluster width mode.
pub open spec fn is_baseline(p: VirtualTerminalProfile) -> bool {
    &&& p.unicode_version@ == "unicode-width 0.2"@
    &&& !p.grapheme_cluster_width_mode
    &&& !p.ambiguous_width_is_wide
    &&& p.decrqm_mode_2027_status == 0
    &&& p.default_reported_fg == (0xe6u8, 0xe6u8, 0xe6u8)
    &&& p.default_reported_bg == (0u8, 0u8, 0u8)
    &&& p.agent_term@ == "xterm-256color"@
    &&& p.agent_colorterm@ == "truecolor"@
    &&& p.osc8_policy == Osc8Policy::ModelMetadata
    &&& p.supported_sgr.flags == 0x1fff
}

impl Default for VirtualTerminalProfile {
    fn default() -> (r: Self)
        ensures
            is_baseline(r),
    {
        VirtualTerminalProfile {
            unicode_version: "unicode-width 0.2",
            grapheme_cluster_width_mode: false,
            ambiguous_width_is_wide: false,
            decrqm_mode_2027_status: 0,
            default_reported_fg: (0xe6, 0xe6, 0xe6),
            default_reported_bg: (0x00, 0x00, 0x00),
            agent_term: "xterm-256color",
            agent_colorterm: "truecolor",
            osc8_policy: Osc8Policy::ModelMetadata,
            supported_sgr: SupportedSgr { flags: 0x1fff },
        }
    }
}

/// How OSC 8 hyperlinks are handled.
#[derive(Debug, Clone, Copy, PartialEq, Eq, Structural)]
pub enum Osc8Policy {
    /// Hyperlinks are modeled as cell metadata rather than passed through raw.
    ModelMetadata,
}

/// Bitmask of SGR attributes the virtual terminal supports.
#[derive(Debug, Clone, Copy, PartialEq, Eq, Structural)]
pub struct SupportedSgr {
    /// One bit per feature, from bold (lowest) to truecolor (bit 12).
    pub flags: u16,
}

const BOLD: u16 = 0x1;

const DIM: u16 = 0x2;

const ITALIC: u16 = 0x4;

const UNDERLINE: u16 = 0x8;

const UNDERLINE_STYLE: u16 = 0x10;

const UNDERLINE_COLOR: u16 = 0x20;

const INVERSE: u16 = 0x40;

const STRIKETHROUGH: u16 = 0x80;

const BLINK: u16 = 0x100;

const CONCEAL: u16 = 0x200;

const OVERLINE: u16 = 0x400;

const COLOR_256: u16 = 0x800;

const TRUECOLOR: u16 = 0x1000;

impl SupportedSgr {
    /// Bold SGR supported.
    pub fn bold(&self) -> (r: bool)
        ensures
            r == (self.flags & 0x1 != 0),
    {
        self.flags & BOLD != 0
    }

    /// Dim/faint SGR supported.
    pub fn dim(&self) -> (r: bool)
        ensures
            r == (self.flags & 0x2 != 0),
    {
        self.flags & DIM != 0
    }

    /// Italic SGR supported.
    pub fn italic(&self) -> (r: bool)
        ensures
            r == (self.flags & 0x4 != 0),
    {
        self.flags & ITALIC != 0
    }

    /// Underline SGR supported.
    pub fn underline(&self) -> (r: bool)
        ensures
            r == (self.flags & 0x8 != 0),
    {
        self.flags & UNDERLINE != 0
    }

    /// Styled underline (curly/dotted/dashed) supported.
    pub fn underline_style(&self) -> (r: bool)
        ensures
            r == (self.flags & 0x10 != 0),
    {
        self.flags & UNDERLINE_STYLE != 0
    }

    /// Underline color SGR supported.
    pub fn underline_color(&self) -> (r: bool)
        ensures
            r == (self.flags & 0x20 != 0),
    {
        self.flags & UNDERLINE_COLOR != 0
    }

    /// Reverse video SGR supported.
    pub fn inverse(&self) -> (r: bool)
        ensures
            r == (self.flags & 0x40 != 0),
    {
        self.flags & INVERSE != 0
    }

    /// Strikethrough SGR supported.
    pub fn strikethrough(&self) -> (r: bool)
        ensures
            r == (self.flags & 0x80 != 0),
    {
        self.flags & STRIKETHROUGH != 0
    }

    /// Blink SGR supported.
    pub fn blink(&self) -> (r: bool)
        ensures
            r == (self.flags & 0x100 != 0),
    {
        self.flags & BLINK != 0
    }

    /// Conceal SGR supported.
    pub fn conceal(&self) -> (r: bool)
        ensures
            r == (self.flags & 0x200 != 0),
    {
        self.flags & CONCEAL != 0
    }

    /// Overline SGR supported.
    pub fn overline(&self) -> (r: bool)
        ensures
            r == (self.flags & 0x400 != 0),
    {
        self.flags & OVERLINE != 0
    }

    /// 256-color palette SGR supported.
    pub fn color_256(&self) -> (r: bool)
        ensures
            r == (self.flags & 0x800 != 0),
    {
        self.flags & COLOR_256 != 0
    }

    /// Truecolor (24-bit) SGR supported.
    pub fn truecolor(&self) -> (r: bool)
        ensures
            r == (self.flags & 0x1000 != 0),
    {
        self.flags & TRUECOLOR != 0
    }

    /// Whether a foreground or background color is supported.
    fn admits_color(&self, color: Color) -> (r: bool)
        ensures
            r == color_within(self.flags, color),
    {
        match color {
            Color::Default => true,
            Color::Idx(_) => self.color_256(),
            Color::Rgb(_, _, _) => self.truecolor(),
        }
    }

    /// Whether an underline of that style is supported.
    fn admits_underline(&self, style: UnderlineStyle) -> (r: bool)
        ensures
            r == ((style != UnderlineStyle::Off ==> self.flags & 0x8 != 0) && (style
                != UnderlineStyle::Off && style != UnderlineStyle::Single ==> self.flags & 0x10
                != 0)),
    {
        match style {
            UnderlineStyle::Off => true,
            UnderlineStyle::Single => self.underline(),
            _ => self.underline() && self.underline_style(),
        }
    }
}

/// The columns for an entry of the width table: at most two, and one where
/// there is no entry.
pub open spec fn entry_columns(width: Option<usize>) -> int {
    match width {
        None => 1,
        Some(w) => if w > 2 {
            2
        } else {
            w as int
        },
    }
}

/// The columns that a printed character takes by itself: one for printable
/// ASCII; else what the width table says.
pub open spec fn char_columns(ch: char) -> int {
    if ' ' <= ch && ch <= '~' {
        1
    } else {
        entry_columns(unicode_char_width(ch))
    }
}

/// Whether `ch` is a halfwidth katakana voicing mark.
pub open spec fn is_voicing_mark(ch: char) -> bool {
    ch == '\u{ff9e}' || ch == '\u{ff9f}'
}

/// The number of halfwidth katakana voicing marks in `text`.
pub open spec fn voicing_marks(text: Seq<char>) -> nat {
    text.filter(|ch: char| is_voicing_mark(ch)).len()
}

/// The columns for a string's width (as a 16-bit number) and one more for each
/// halfwidth voicing mark: at most two.
pub open spec fn summed_columns(width: int, marks: int) -> int {
    let w = width % 0x1_0000 + marks % 0x1_0000;
    if w > 2 {
        2
    } else {
        w
    }
}

/// The columns that a whole cluster takes: nothing for the empty text, and
/// otherwise those for the width of the string and its voicing marks.
pub open spec fn cluster_columns(text: Seq<char>) -> int {
    if text.len() == 0 {
        0
    } else {
        summed_columns(unicode_str_width(text) as int, voicing_marks(text) as int)
    }
}

/// The columns for an entry of the width table.
pub fn columns_for_entry(width: Option<usize>) -> (r: u16)
    ensures
        r == entry_columns(width),
{
    match width {
        None => 1,
        Some(w) => if w > 2 {
            2
        } else {
            w as u16
        },
    }
}

/// The columns for a string's width and the number of its voicing marks.
pub fn columns_for_sum(width: usize, marks: u16) -> (r: u16)
    ensures
        r == summed_columns(width as int, marks as int),
{
    let total: u32 = (width % 0x1_0000) as u32 + marks as u32;
    if total > 2 {
        2
    } else {
        total as u16
    }
}

impl VirtualTerminalProfile {
    /// Width of one printable scalar before it joins an existing cluster.
    #[must_use]
    pub fn char_width(self, ch: char) -> (r: u16)
        ensures
            r == char_columns(ch),
            r <= 2,
    {
        columns_for_entry(unicode_width_of_char(ch))
    }

    /// Width of one accepted grapheme-ish cluster in the virtual terminal.
    #[must_use]
    pub fn cluster_width(self, cluster: &str) -> (r: u16)
        ensures
            r == cluster_columns(cluster@),
    {
        display_width(cluster)
    }

    /// DECRQM status for a private mode (`0` if untracked).
    #[must_use]
    pub fn decrqm_status(self, mode: u16) -> (r: u16)
        ensures
            r == if mode == 2027 {
                self.decrqm_mode_2027_status
            } else {
                0
            },
    {
        if mode == 2027 {
            self.decrqm_mode_2027_status
        } else {
            0
        }
    }

    /// Default OSC 10/11 color for `code` (10 = fg, 11 = bg).
    #[must_use]
    pub fn default_reported_color(self, code: u8) -> (r: Option<(u8, u8, u8)>)
        ensures
            r == if code == 10 {
                Some(self.default_reported_fg)
            } else if code == 11 {
                Some(self.default_reported_bg)
            } else {
                None
            },
    {
        match code {
            10 => Some(self.default_reported_fg),
            11 => Some(self.default_reported_bg),
            _ => None,
        }
    }

    /// True when every attribute bit in `attrs` is claimed by this profile.
    #[must_use]
    pub fn attrs_supported(self, attrs: &Attrs) -> (r: bool)
        ensures
            r == attrs_within(self.supported_sgr.flags, *attrs),
    {
        let sgr = self.supported_sgr;
        sgr.admits_color(attrs.foreground) && sgr.admits_color(attrs.background) && (!attrs.bold
            || sgr.bold()) && (!attrs.dim || sgr.dim()) && (!attrs.italic || sgr.italic())
            && sgr.admits_underline(attrs.underline_style) && (attrs.underline_color
            == Color::Default || sgr.underline_color()) && (!attrs.inverse || sgr.inverse()) && (
        !attrs.strikethrough || sgr.strikethrough()) && (!(attrs.slow_blink || attrs.rapid_blink)
            || sgr.blink()) && (!attrs.conceal || sgr.conceal()) && (!attrs.overline
            || sgr.overline())
    }
}

/// Whether a foreground or background color asks only for features whose bit
/// is set in `flags`: a palette color needs the 256-color palette, a direct
/// color truecolor.
pub open spec fn color_within(flags: u16, color: Color) -> bool {
    match color {
        Color::Default => true,
        Color::Idx(_) => flags & 0x800 != 0,
        Color::Rgb(_, _, _) => flags & 0x1000 != 0,
    }
}

/// Whether `attrs` asks only for features whose bit is set in `flags`. A plain
/// underline needs underline support, any other one styled underlines too.
pub open spec fn attrs_within(flags: u16, attrs: Attrs) -> bool {
    &&& color_within(flags, attrs.foreground)
    &&& color_within(flags, attrs.background)
    &&& attrs.bold ==> flags & 0x1 != 0
    &&& attrs.dim ==> flags & 0x2 != 0
    &&& attrs.italic ==> flags & 0x4 != 0
    &&& attrs.underline_style != UnderlineStyle::Off ==> flags & 0x8 != 0
    &&& attrs.underline_style != UnderlineStyle::Off && attrs.underline_style
        != UnderlineStyle::Single ==> flags & 0x10 != 0
    &&& attrs.underline_color != Color::Default ==> flags & 0x20 != 0
    &&& attrs.inverse ==> flags & 0x40 != 0
    &&& attrs.strikethrough ==> flags & 0x80 != 0
    &&& (attrs.slow_blink || attrs.rapid_blink) ==> flags & 0x100 != 0
    &&& attrs.conceal ==> flags & 0x200 != 0
    &&& attrs.overline ==> flags & 0x400 != 0
}

/// Width of one accepted cluster in the virtual terminal profile.
#[must_use]
pub fn display_width(cluster: &str) -> (r: u16)
    ensures
        r == cluster_columns(cluster@),
        r <= 2,
{
    if cluster.is_empty() {
        proof {
            vstd::utf8::encode_utf8_decode_utf8(cluster@);
        }
        return 0;
    }
    proof {
        if cluster@.len() == 0 {
            assert(cluster@ =~= Seq::empty());
            assert(vstd::utf8::encode_utf8(cluster@).len() == 0);
        }
    }
    columns_for_sum(
        unicode_width_of_str(cluster),
        count_halfwidth_katakana_voicing_marks(cluster),
    )
}

fn count_halfwidth_katakana_voicing_marks(cluster: &str) -> (r: u16)
    ensures
        r == voicing_marks(cluster@) % 0x1_0000,
{
    let n: usize = cluster.unicode_len();
    let mut i: usize = 0;
    let mut count: u16 = 0;
    let ghost text = cluster@;
    let ghost mark = |ch: char| is_voicing_mark(ch);
    assert(text.take(0) =~= Seq::<char>::empty());
    proof {
        reveal(Seq::filter);
    }
    while i < n
        invariant
            n == cluster@.len(),
            text == cluster@,
            i <= n,
            mark == |ch: char| is_voicing_mark(ch),
            count == text.take(i as int).filter(mark).len() % 0x1_0000,
        decreases n - i,
    {
        let ch = cluster.get_char(i);
        proof {
            reveal(Seq::filter);
            assert(text.take(i + 1).drop_last() =~= text.take(i as int));
            assert(text.take(i + 1).last() == ch);
        }
        if ch == '\u{ff9e}' || ch == '\u{ff9f}' {
            count = count.wrapping_add(1);
        }
        i = i + 1;
    }
    assert(text.take(n as int) =~= text);
    count
}

} // verus!
