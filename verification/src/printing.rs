//! What a printed character does to the screen.

use crate::cell::{CellV, Color};
use crate::editing::bare;
use crate::model::{cell_fits, RowWrap};
use crate::state::{apply, apply_all, grid_wf, print, EventV, GridV};
use crate::width::{char_columns, cluster_columns};
use vstd::prelude::*;

verus! {

/// The column of the cluster that the cursor stands right behind, or `-1`.
pub open spec fn cluster_behind(g: GridV) -> int {
    let b: int = if g.col == g.cols {
        g.cols - 1
    } else {
        g.col - 1
    };
    if b > 0 && g.screen[g.row].cells[b].is_wide_continuation {
        b - 1
    } else {
        b
    }
}

/// Whether a printed character belongs to the cluster before the cursor: it
/// takes no column, or it was printed right after a zero-width joiner.
pub open spec fn belongs(g: GridV, ch: char) -> bool {
    let at = cluster_behind(g);
    let text = g.screen[g.row].cells[at].contents;
    at >= 0 && text.len() > 0 && (char_columns(ch) == 0 || (g.joinable && text[text.len() - 1]
        == '\u{200d}'))
}

/// Whether printing does nothing at all, because a soft reset cancelled the wrap
/// of a parked cursor.
pub open spec fn stuck(g: GridV) -> bool {
    g.disarmed && g.modes.autowrap
}

/// Whether the cluster `text` of one or two columns was written at `c` with the
/// looks of `like`: the second column of a wide one follows, halves of wide cells
/// that were cut in two are blank, and every other cell is as before.
pub open spec fn wrote(
    old: Seq<CellV>,
    new: Seq<CellV>,
    c: int,
    text: Seq<char>,
    wide: bool,
    like: CellV,
) -> bool {
    let end: int = if wide {
        c + 2
    } else {
        c + 1
    };
    &&& new.len() == old.len()
    &&& new[c].contents == text
    &&& new[c].is_wide == wide
    &&& !new[c].is_wide_continuation
    &&& new[c].attrs == like.attrs
    &&& new[c].hyperlink == like.hyperlink
    &&& new[c].hyperlink_id == like.hyperlink_id
    &&& wide && c + 1 < old.len() ==> {
        &&& new[c + 1].contents.len() == 0
        &&& !new[c + 1].is_wide
        &&& new[c + 1].is_wide_continuation
        &&& new[c + 1].attrs == like.attrs
        &&& new[c + 1].hyperlink == like.hyperlink
        &&& new[c + 1].hyperlink_id == like.hyperlink_id
    }
    &&& c > 0 && old[c].is_wide_continuation ==> new[c - 1] == bare(Color::Default)
    &&& end < old.len() && old[end].is_wide_continuation ==> new[end] == bare(Color::Default)
    &&& forall|i: int|
        0 <= i < old.len() && (i < c || i >= end) && !(i == c - 1 && old[c].is_wide_continuation)
            && !(i == end && old[end].is_wide_continuation) ==> #[trigger] new[i] == old[i]
}

/// A character that belongs to the cluster before the cursor is added to it: the
/// cell keeps its looks, may grow to two columns but never shrinks, and the
/// cursor stays right behind it.
pub proof fn joining_extends_the_cluster(g: GridV, ch: char)
    requires
        grid_wf(g),
        !stuck(g),
        belongs(g, ch),
    ensures
        ({
            let h = apply(g, EventV::Print(ch));
            let at = cluster_behind(g);
            let was = g.screen[g.row].cells[at];
            let text = was.contents.push(ch);
            let wide = was.is_wide || cluster_columns(text) == 2;
            let grows = wide && !was.is_wide;
            &&& h == (GridV {
                screen: h.screen,
                col: h.col,
                dirty: h.dirty,
                mutated: true,
                joinable: true,
                ..g
            })
            &&& h.screen.len() == g.rows
            &&& forall|i: int|
                0 <= i < g.rows && i != g.row ==> #[trigger] h.screen[i] == g.screen[i]
            &&& h.screen[g.row].wrap == g.screen[g.row].wrap
            &&& wrote(g.screen[g.row].cells, h.screen[g.row].cells, at, text, wide, was)
            &&& h.col == if grows && g.col < g.cols {
                g.col + 1
            } else {
                g.col
            }
        }),
{
    let cells = g.screen[g.row].cells;
    let at = cluster_behind(g);
    assert(cells.len() == g.cols);
    assert(cell_fits(cells, at));
    if at + 1 < g.cols {
        assert(cell_fits(cells, at + 1));
    }
    assert(cells[at].contents.len() > 0);
    assert(cells[at].contents.last() == cells[at].contents[cells[at].contents.len() - 1]);
    assert(crate::state::join_col(g) == at);
    assert(crate::state::joins(g, ch));
}

/// A character without a column of its own, and no cluster to join, is dropped.
/// So is a wide one that does not fit while the wrap is off, and any while the
/// cursor is stuck behind the last column.
pub proof fn dropped_characters(g: GridV, ch: char)
    requires
        grid_wf(g),
        ({
            let free: int = if g.col == g.cols {
                1
            } else {
                g.cols - g.col
            };
            ||| stuck(g)
            ||| !belongs(g, ch) && char_columns(ch) == 0
            ||| !belongs(g, ch) && !g.modes.autowrap && char_columns(ch) > free
        }),
    ensures
        ({
            let h = apply(g, EventV::Print(ch));
            h == (GridV { mutated: h.mutated, joinable: h.joinable, ..g })
        }),
{
    joins_are_belongings(g, ch);
}

/// The two ways to say that a character joins agree.
pub(crate) proof fn joins_are_belongings(g: GridV, ch: char)
    requires
        grid_wf(g),
    ensures
        crate::state::joins(g, ch) == belongs(g, ch),
        crate::state::join_col(g) == cluster_behind(g),
{
    let at = cluster_behind(g);
    assert(g.screen[g.row].cells.len() == g.cols);
    if at >= 0 {
        let text = g.screen[g.row].cells[at].contents;
        if text.len() > 0 {
            assert(text.last() == text[text.len() - 1]);
        }
    }
}

/// Any other character is written at the cursor, with the pen and the open
/// hyperlink, and the cursor moves behind it: past the last column, where it
/// parks, at most. With the wrap off a parked cursor writes over the last column.
pub proof fn printing_fills_a_cell(g: GridV, ch: char)
    requires
        grid_wf(g),
        !stuck(g),
        !belongs(g, ch),
        char_columns(ch) == 1 || char_columns(ch) == 2,
        g.col < g.cols || !g.modes.autowrap,
        g.modes.autowrap || char_columns(ch) <= (if g.col == g.cols {
            1
        } else {
            g.cols - g.col
        }),
    ensures
        ({
            let h = apply(g, EventV::Print(ch));
            let c: int = if g.col == g.cols {
                g.cols - 1
            } else {
                g.col
            };
            let w = char_columns(ch);
            let like = CellV {
                attrs: g.pen,
                hyperlink: g.link,
                hyperlink_id: g.link_id,
                ..bare(Color::Default)
            };
            &&& h == (GridV {
                screen: h.screen,
                col: h.col,
                disarmed: false,
                dirty: h.dirty,
                mutated: true,
                joinable: true,
                ..g
            })
            &&& h.screen.len() == g.rows
            &&& forall|i: int|
                0 <= i < g.rows && i != g.row ==> #[trigger] h.screen[i] == g.screen[i]
            &&& h.screen[g.row].wrap == g.screen[g.row].wrap
            &&& wrote(g.screen[g.row].cells, h.screen[g.row].cells, c, seq![ch], w == 2, like)
            &&& h.col == if c + w < g.cols {
                c + w
            } else {
                g.cols
            }
        }),
{
    joins_are_belongings(g, ch);
    assert(g.screen[g.row].cells.len() == g.cols);
}

/// With the wrap pending, a character goes to the start of the next line: as if a
/// carriage return and a line feed came first, but that the new row continues the
/// line above it.
pub proof fn pending_wrap_comes_first(g: GridV, ch: char)
    requires
        grid_wf(g),
        g.col == g.cols,
        g.modes.autowrap,
        !g.disarmed,
        !belongs(g, ch),
        char_columns(ch) == 1 || char_columns(ch) == 2,
    ensures
        ({
            let h = apply(g, EventV::Print(ch));
            let m = after_crlf(g);
            let w = char_columns(ch);
            let like = CellV {
                attrs: g.pen,
                hyperlink: g.link,
                hyperlink_id: g.link_id,
                ..bare(Color::Default)
            };
            &&& h == (GridV {
                screen: h.screen,
                col: h.col,
                dirty: h.dirty,
                mutated: true,
                joinable: true,
                ..m
            })
            &&& h.screen.len() == g.rows
            &&& forall|i: int|
                0 <= i < g.rows && i != m.row ==> #[trigger] h.screen[i] == m.screen[i]
            &&& g.row != g.bottom || g.top < g.bottom ==> h.screen[m.row].wrap == RowWrap::Soft
            &&& wrote(m.screen[m.row].cells, h.screen[m.row].cells, 0, seq![ch], w == 2, like)
            &&& h.col == if w < g.cols {
                w
            } else {
                g.cols
            }
        }),
{
    joins_are_belongings(g, ch);
    wrapped_like_feed(g);
    placed_writes(wrapped(g), ch);
    assert(apply(g, EventV::Print(ch)) == crate::state::placed(wrapped(g), ch, char_columns(ch)))
        by {
        reveal(wrapped);
        assert(print(g, ch) == crate::state::placed(wrapped(g), ch, char_columns(ch)));
    }
}

/// A character written at the cursor.
proof fn placed_writes(t: GridV, ch: char)
    requires
        0 <= t.row < t.screen.len(),
        t.screen[t.row].cells.len() == t.cols,
        0 <= t.col < t.cols,
        char_columns(ch) == 1 || char_columns(ch) == 2,
    ensures
        ({
            let w = char_columns(ch);
            let h = crate::state::placed(t, ch, w);
            let like = CellV {
                attrs: t.pen,
                hyperlink: t.link,
                hyperlink_id: t.link_id,
                ..bare(Color::Default)
            };
            &&& h == (GridV { screen: h.screen, col: h.col, dirty: h.dirty, ..t })
            &&& h.screen.len() == t.screen.len()
            &&& forall|i: int|
                0 <= i < t.screen.len() && i != t.row ==> #[trigger] h.screen[i] == t.screen[i]
            &&& h.screen[t.row].wrap == t.screen[t.row].wrap
            &&& wrote(t.screen[t.row].cells, h.screen[t.row].cells, t.col, seq![ch], w == 2, like)
            &&& h.col == if t.col + w < t.cols {
                t.col + w
            } else {
                t.cols
            }
        }),
{
}

/// The state after a carriage return and a line feed.
#[verifier::opaque]
pub open spec fn after_crlf(g: GridV) -> GridV {
    apply(apply(g, EventV::Execute(0x0d)), EventV::Execute(0x0a))
}

/// The state in which the character behind a pending wrap is written.
#[verifier::opaque]
spec fn wrapped(g: GridV) -> GridV {
    crate::state::newline(GridV { col: 0, mutated: true, joinable: true, ..g }, RowWrap::Soft)
}

proof fn wrapped_like_feed(g: GridV)
    requires
        grid_wf(g),
        g.col == g.cols,
        !g.disarmed,
    ensures
        ({
            let t = wrapped(g);
            let m = after_crlf(g);
            &&& t == (GridV { screen: t.screen, mutated: true, joinable: true, ..m })
            &&& t.screen.len() == g.rows
            &&& 0 <= m.row < g.rows
            &&& t.col == 0
            &&& m.cols == g.cols
            &&& m.screen.len() == g.rows
            &&& m.screen[m.row].cells.len() == g.cols
            &&& t.screen[m.row].cells == m.screen[m.row].cells
            &&& g.row != g.bottom || g.top < g.bottom ==> t.screen[m.row].wrap == RowWrap::Soft
            &&& forall|i: int|
                0 <= i < g.rows && i != m.row ==> #[trigger] t.screen[i] == m.screen[i]
        }),
{
    reveal(after_crlf);
    reveal(wrapped);
    let t = wrapped(g);
    let m = after_crlf(g);
    assert forall|i: int| 0 <= i < g.rows implies (#[trigger] g.screen[i]).cells.len()
        == g.cols by {}
    assert forall|i: int| 0 <= i < g.rows && i != m.row implies #[trigger] t.screen[i]
        == m.screen[i] by {}
    assert(t.scrollback =~= m.scrollback);
    assert(t.screen[m.row].cells =~= m.screen[m.row].cells);
    assert(t =~= GridV { screen: t.screen, mutated: true, joinable: true, ..m });
}

/// The event of a printed character.
pub open spec fn print_of(ch: char) -> EventV {
    EventV::Print(ch)
}

/// Printable ASCII text fills one column after the other, in order.
pub proof fn text_fills_columns(g: GridV, text: Seq<char>)
    requires
        grid_wf(g),
        g.col + text.len() <= g.cols,
        forall|i: int| 0 <= i < text.len() ==> ' ' <= #[trigger] text[i] && text[i] <= '~',
        !g.joinable,
        !g.disarmed,
    ensures
        ({
            let h = apply_all(g, Seq::new(text.len(), |i: int| print_of(text[i])));
            &&& h.row == g.row
            &&& h.col == g.col + text.len()
            &&& h.screen.len() == g.rows
            &&& forall|i: int|
                0 <= i < g.rows && i != g.row ==> #[trigger] h.screen[i] == g.screen[i]
            &&& forall|i: int|
                0 <= i < text.len() ==> {
                    &&& (#[trigger] h.screen[g.row].cells[g.col + i]).contents == seq![text[i]]
                    &&& h.screen[g.row].cells[g.col + i].attrs == g.pen
                    &&& h.screen[g.row].cells[g.col + i].hyperlink == g.link
                }
            &&& h.pen == g.pen && h.link == g.link && h.link_id == g.link_id && h.modes == g.modes
                && h.scrollback == g.scrollback && h.rows == g.rows && h.cols == g.cols
                && !h.disarmed && grid_wf(h)
        }),
    decreases text.len(),
{
    let events = Seq::new(text.len(), |i: int| print_of(text[i]));
    if text.len() > 0 {
        let rest = text.drop_last();
        let fewer = Seq::new(rest.len(), |i: int| print_of(rest[i]));
        assert(events.drop_last() =~= fewer);
        assert forall|i: int| 0 <= i < rest.len() implies ' ' <= #[trigger] rest[i] && rest[i]
            <= '~' by {
            assert(rest[i] == text[i]);
        }
        text_fills_columns(g, rest);
        let m = apply_all(g, fewer);
        assert(events.last() == EventV::Print(text.last()));
        let ch = text.last();
        assert(' ' <= text[text.len() - 1] && text[text.len() - 1] <= '~');
        assert(char_columns(ch) == 1);
        crate::wellformed::apply_keeps_wf(m, EventV::Print(ch));
        assert(m.screen[m.row].cells.len() == m.cols);
        if rest.len() > 0 {
            let last = m.screen[g.row].cells[g.col + (rest.len() - 1)];
            assert(last.contents == seq![rest[rest.len() - 1]]);
            assert(rest[rest.len() - 1] == text[rest.len() - 1]);
            assert(cell_fits(m.screen[g.row].cells, g.col + rest.len() - 1));
            assert(cluster_behind(m) == g.col + rest.len() - 1);
        } else {
            assert(m == g);
        }
        assert(!belongs(m, ch));
        printing_fills_a_cell(m, ch);
        let h = apply(m, EventV::Print(ch));
        let cells = m.screen[g.row].cells;
        assert forall|i: int| 0 <= i < text.len() implies {
            &&& (#[trigger] h.screen[g.row].cells[g.col + i]).contents == seq![text[i]]
            &&& h.screen[g.row].cells[g.col + i].attrs == g.pen
            &&& h.screen[g.row].cells[g.col + i].hyperlink == g.link
        } by {
            if i < rest.len() {
                let c = g.col + i;
                assert(cells[c].contents == seq![rest[i]]);
                assert(cell_fits(cells, c));
                assert(cell_fits(cells, c + 1));
                assert(rest[i] == text[i]);
                assert(!cells[c].is_wide_continuation);
                if c == m.col - 1 {
                    narrow_lead(cells, c, text[i]);
                }
            }
        }
    }
}

/// A cell that holds one printable ASCII character is narrow.
proof fn narrow_lead(cells: Seq<CellV>, c: int, ch: char)
    requires
        0 <= c < cells.len(),
        crate::model::row_wf(cells),
        cells[c].contents == seq![ch],
        ' ' <= ch && ch <= '~',
    ensures
        !cells[c].is_wide,
        c + 1 < cells.len() ==> !cells[c + 1].is_wide_continuation,
{
    assert(cell_fits(cells, c));
    assert(cells[c].contents.len() == 1);
    assert(cells[c].contents[0] == ch);
    assert(char_columns(ch) == 1);
    if c + 1 < cells.len() {
        assert(cell_fits(cells, c + 1));
    }
}

} // verus!
