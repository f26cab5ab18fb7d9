//! Cells of the screen: text, attributes, and hyperlink metadata.

use crate::compact::{compact_chars, compact_clone, compact_empty, compact_eq, compact_is_empty, compact_text};
use vstd::prelude::*;

verus! {

/// A terminal color.
#[derive(Debug, Clone, Copy, PartialEq, Eq, Structural)]
pub enum Color {
    /// Terminal default foreground or background.
    Default,
    /// 256-color palette index.
    Idx(u8),
    /// True-color RGB.
    Rgb(u8, u8, u8),
}

impl Default for Color {
    fn default() -> (r: Self)
        ensures
            r == Color::Default,
    {
        Color::Default
    }
}

/// Underline style from SGR 4 / 21 / 4:n.
#[derive(Debug, Clone, Copy, PartialEq, Eq, Structural)]
pub enum UnderlineStyle {
    /// No underline.
    Off,
    /// Single underline (SGR 4 / 4:1).
    Single,
    /// Double underline (SGR 21 / 4:2).
    Double,
    /// Curly underline (SGR 4:3).
    Curly,
    /// Dotted underline (SGR 4:4).
    Dotted,
    /// Dashed underline (SGR 4:5).
    Dashed,
}

impl Default for UnderlineStyle {
    fn default() -> (r: Self)
        ensures
            r == UnderlineStyle::Off,
    {
        UnderlineStyle::Off
    }
}

/// SGR attributes of a cell, and of the pen that writes cells.
#[derive(Debug, Clone, Copy, PartialEq, Eq, Structural)]
pub struct Attrs {
    /// Foreground color.
    pub foreground: Color,
    /// Background color.
    pub background: Color,
    /// Underline color (when styled underlines are active).
    pub underline_color: Color,
    /// Underline style (none / single / double / curly / dotted / dashed).
    pub underline_style: UnderlineStyle,
    /// SGR bold.
    pub bold: bool,
    /// SGR italic.
    pub italic: bool,
    /// SGR reverse video.
    pub inverse: bool,
    /// SGR faint/dim.
    pub dim: bool,
    /// SGR strikethrough.
    pub strikethrough: bool,
    /// SGR slow blink.
    pub slow_blink: bool,
    /// SGR rapid blink.
    pub rapid_blink: bool,
    /// SGR conceal/hidden.
    pub conceal: bool,
    /// SGR overline.
    pub overline: bool,
}

/// The attributes of a fresh cell: default colors, nothing set.
pub open spec fn plain_attrs() -> Attrs {
    Attrs {
        foreground: Color::Default,
        background: Color::Default,
        underline_color: Color::Default,
        underline_style: UnderlineStyle::Off,
        bold: false,
        italic: false,
        inverse: false,
        dim: false,
        strikethrough: false,
        slow_blink: false,
        rapid_blink: false,
        conceal: false,
        overline: false,
    }
}

/// Default attributes on the given background: what an erased cell carries.
pub open spec fn bg_attrs(background: Color) -> Attrs {
    Attrs { background, ..plain_attrs() }
}

impl Default for Attrs {
    fn default() -> (r: Self)
        ensures
            r == plain_attrs(),
    {
        Attrs {
            foreground: Color::Default,
            background: Color::Default,
            underline_color: Color::Default,
            underline_style: UnderlineStyle::Off,
            bold: false,
            italic: false,
            inverse: false,
            dim: false,
            strikethrough: false,
            slow_blink: false,
            rapid_blink: false,
            conceal: false,
            overline: false,
        }
    }
}

/// OSC 8 hyperlink metadata attached to a cell span.
#[derive(Debug)]
pub struct Hyperlink {
    /// OSC 8 `id=` parameter, grouping discontiguous spans of one logical link.
    pub id: String,
    /// Hyperlink target URI.
    pub uri: String,
}

/// What a [`Hyperlink`] holds.
#[verifier::ext_equal]
pub struct LinkV {
    pub id: Seq<char>,
    pub uri: Seq<char>,
}

impl View for Hyperlink {
    type V = LinkV;

    open spec fn view(&self) -> LinkV {
        LinkV { id: self.id@, uri: self.uri@ }
    }
}

impl Default for Hyperlink {
    fn default() -> (r: Self)
        ensures
            r@ == (LinkV { id: Seq::empty(), uri: Seq::empty() }),
    {
        Hyperlink { id: String::new(), uri: String::new() }
    }
}

impl Clone for Hyperlink {
    fn clone(&self) -> (r: Self)
        ensures
            r@ == self@,
    {
        Hyperlink { id: self.id.clone(), uri: self.uri.clone() }
    }
}

impl PartialEq for Hyperlink {
    fn eq(&self, other: &Self) -> (r: bool) {
        self.id == other.id && self.uri == other.uri
    }
}

impl vstd::std_specs::cmp::PartialEqSpecImpl for Hyperlink {
    open spec fn obeys_eq_spec() -> bool {
        true
    }

    open spec fn eq_spec(&self, other: &Self) -> bool {
        self.id@ == other.id@ && self.uri@ == other.uri@
    }
}

impl Eq for Hyperlink {

}

/// What an optional [`Hyperlink`] holds.
pub open spec fn link_view(link: Option<Hyperlink>) -> Option<LinkV> {
    match link {
        Some(l) => Some(l@),
        None => None,
    }
}

/// A copy of an optional hyperlink.
pub(crate) fn clone_link(link: &Option<Hyperlink>) -> (r: Option<Hyperlink>)
    ensures
        link_view(r) == link_view(*link),
{
    match link {
        Some(l) => Some(l.clone()),
        None => None,
    }
}

fn same_link(left: &Option<Hyperlink>, right: &Option<Hyperlink>) -> (r: bool)
    ensures
        r == (link_view(*left) == link_view(*right)),
{
    match (left, right) {
        (Some(l), Some(r)) => {
            assert((l@ == r@) == (l.id@ == r.id@ && l.uri@ == r.uri@));
            l.id == r.id && l.uri == r.uri
        },
        (None, None) => true,
        _ => false,
    }
}

/// A single cell in the terminal grid.
///
/// `contents` is the grapheme cluster rendered at this cell position.
/// An empty string means the cell is blank (space). Wide characters occupy
/// the first column and set `is_wide`; the continuation column has empty
/// `contents` and `is_wide_continuation = true`.
#[derive(Debug)]
pub struct Cell {
    /// Grapheme cluster. Empty = blank (space).
    pub contents: compact_str::CompactString,
    /// True for the lead column of a wide (2-col) character.
    pub is_wide: bool,
    /// True for the phantom continuation column of a wide character.
    pub is_wide_continuation: bool,
    /// Hyperlink id for OSC 8 regions.
    ///
    /// `0` means no hyperlink for this cell.
    pub hyperlink_id: u32,
    /// SGR attributes for this cell.
    pub attrs: Attrs,
    /// Full OSC 8 hyperlink (id + uri), when present.
    pub hyperlink: Option<Hyperlink>,
}

/// What a [`Cell`] holds.
#[verifier::ext_equal]
pub struct CellV {
    pub contents: Seq<char>,
    pub is_wide: bool,
    pub is_wide_continuation: bool,
    pub hyperlink_id: u32,
    pub attrs: Attrs,
    pub hyperlink: Option<LinkV>,
}

impl View for Cell {
    type V = CellV;

    open spec fn view(&self) -> CellV {
        CellV {
            contents: compact_chars(self.contents),
            is_wide: self.is_wide,
            is_wide_continuation: self.is_wide_continuation,
            hyperlink_id: self.hyperlink_id,
            attrs: self.attrs,
            hyperlink: link_view(self.hyperlink),
        }
    }
}

/// A cell without text or link, with the given attributes.
pub open spec fn blank_with(attrs: Attrs) -> CellV {
    CellV {
        contents: Seq::empty(),
        is_wide: false,
        is_wide_continuation: false,
        hyperlink_id: 0,
        attrs,
        hyperlink: None,
    }
}

/// The default cell: no text, default attributes.
pub open spec fn blank_cell() -> CellV {
    blank_with(plain_attrs())
}

impl Default for Cell {
    fn default() -> (r: Self)
        ensures
            r@ == blank_cell(),
    {
        Cell {
            contents: compact_empty(),
            is_wide: false,
            is_wide_continuation: false,
            hyperlink_id: 0,
            attrs: Attrs::default(),
            hyperlink: None,
        }
    }
}

impl Clone for Cell {
    fn clone(&self) -> (r: Self)
        ensures
            r@ == self@,
    {
        Cell {
            contents: compact_clone(&self.contents),
            is_wide: self.is_wide,
            is_wide_continuation: self.is_wide_continuation,
            hyperlink_id: self.hyperlink_id,
            attrs: self.attrs,
            hyperlink: clone_link(&self.hyperlink),
        }
    }
}

impl PartialEq for Cell {
    fn eq(&self, other: &Self) -> (r: bool) {
        compact_eq(&self.contents, &other.contents) && self.is_wide == other.is_wide
            && self.is_wide_continuation == other.is_wide_continuation && self.hyperlink_id
            == other.hyperlink_id && self.attrs == other.attrs && same_link(
            &self.hyperlink,
            &other.hyperlink,
        )
    }
}

impl vstd::std_specs::cmp::PartialEqSpecImpl for Cell {
    open spec fn obeys_eq_spec() -> bool {
        true
    }

    open spec fn eq_spec(&self, other: &Self) -> bool {
        self@ == other@
    }
}

impl Eq for Cell {

}

impl Cell {
    /// True if the cell has non-blank content.
    pub fn has_contents(&self) -> (r: bool)
        ensures
            r == (self@.contents.len() > 0),
    {
        !compact_is_empty(&self.contents)
    }

    /// Contents as `&str`.
    pub fn contents(&self) -> (r: &str)
        ensures
            r@ == self@.contents,
    {
        compact_text(&self.contents)
    }

    /// Foreground color.
    pub fn fgcolor(&self) -> (r: Color)
        ensures
            r == self@.attrs.foreground,
    {
        self.attrs.foreground
    }

    /// Background color.
    pub fn bgcolor(&self) -> (r: Color)
        ensures
            r == self@.attrs.background,
    {
        self.attrs.background
    }

    /// Whether any underline style is active.
    pub fn underline(&self) -> (r: bool)
        ensures
            r == (self@.attrs.underline_style != UnderlineStyle::Off),
    {
        self.attrs.underline_style != UnderlineStyle::Off
    }

    /// Whether bold is set.
    pub fn bold(&self) -> (r: bool)
        ensures
            r == self@.attrs.bold,
    {
        self.attrs.bold
    }

    /// Whether italic is set.
    pub fn italic(&self) -> (r: bool)
        ensures
            r == self@.attrs.italic,
    {
        self.attrs.italic
    }

    /// Whether reverse video is set.
    pub fn inverse(&self) -> (r: bool)
        ensures
            r == self@.attrs.inverse,
    {
        self.attrs.inverse
    }

    /// Whether dim/faint is set.
    pub fn dim(&self) -> (r: bool)
        ensures
            r == self@.attrs.dim,
    {
        self.attrs.dim
    }

    /// Whether strikethrough is set.
    pub fn strikethrough(&self) -> (r: bool)
        ensures
            r == self@.attrs.strikethrough,
    {
        self.attrs.strikethrough
    }

    /// Whether slow blink is set.
    pub fn slow_blink(&self) -> (r: bool)
        ensures
            r == self@.attrs.slow_blink,
    {
        self.attrs.slow_blink
    }

    /// Whether rapid blink is set.
    pub fn rapid_blink(&self) -> (r: bool)
        ensures
            r == self@.attrs.rapid_blink,
    {
        self.attrs.rapid_blink
    }

    /// Whether conceal/hidden is set.
    pub fn conceal(&self) -> (r: bool)
        ensures
            r == self@.attrs.conceal,
    {
        self.attrs.conceal
    }

    /// Whether overline is set.
    pub fn overline(&self) -> (r: bool)
        ensures
            r == self@.attrs.overline,
    {
        self.attrs.overline
    }
}

} // verus!
