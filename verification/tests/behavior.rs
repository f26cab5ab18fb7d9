//! Exact results of single operations.

use termpane::arena::{MAX_RECYCLED_ROWS, pool_give, pool_take};
use termpane::damage::DirtySpan;
use termpane::parse::{
    parse_sgr_color, parse_sgr_color_values, reconstruct_csi, underline_style_from_sgr,
};
use termpane::stream::incomplete_utf8_suffix_len;
use termpane::width::{columns_for_entry, columns_for_sum};
use termpane::write::{
    blank_row, cell_width, erase_cells_bce, repair_wide_pairs, set_cell_width,
};
use termpane::{
    Attrs, Cell, Color, DamageGrid, DirtySpans, DirtyTracker, MouseProtocolEncoding,
    MouseProtocolMode, PassthroughBuffer, PassthroughEvent, RowArena, UnderlineStyle,
    VirtualTerminalProfile, display_width,
};

fn text(grid: &DamageGrid, row: u16) -> String {
    grid.dump()
        .to_text()
        .split('\n')
        .nth(row as usize)
        .unwrap_or("")
        .to_owned()
}

fn wide_row() -> Vec<Cell> {
    let mut grid = DamageGrid::new(1, 6, 0);
    grid.process("a界b你".as_bytes());
    (0..6)
        .map(|col| grid.cell(0, col).expect("cell").clone())
        .collect()
}

// ── Passthrough ─────────────────────────────────────────────────────────────

#[test]
fn every_event_encodes_as_documented() {
    let cases: Vec<(PassthroughEvent, Option<&[u8]>)> = vec![
        (
            PassthroughEvent::TitleChanged("t".to_owned()),
            Some(b"\x1b]0;t\x07"),
        ),
        (
            PassthroughEvent::IconNameChanged("i".to_owned()),
            Some(b"\x1b]1;i\x07"),
        ),
        (
            PassthroughEvent::ClipboardWrite("c;SGVsbG8=".to_owned()),
            Some(b"\x1b]52;c;SGVsbG8=\x07"),
        ),
        (
            PassthroughEvent::CwdChanged("file:///".to_owned()),
            Some(b"\x1b]7;file:///\x07"),
        ),
        (
            PassthroughEvent::Notification("n".to_owned()),
            Some(b"\x1b]9;n\x07"),
        ),
        (
            PassthroughEvent::ApplicationCursorKeys(true),
            Some(b"\x1b[?1h"),
        ),
        (
            PassthroughEvent::ApplicationCursorKeys(false),
            Some(b"\x1b[?1l"),
        ),
        (PassthroughEvent::FocusEvents(true), Some(b"\x1b[?1004h")),
        (PassthroughEvent::FocusEvents(false), Some(b"\x1b[?1004l")),
        (PassthroughEvent::BracketedPaste(true), Some(b"\x1b[?2004h")),
        (
            PassthroughEvent::BracketedPaste(false),
            Some(b"\x1b[?2004l"),
        ),
        (PassthroughEvent::Bell, Some(b"\x07")),
        (
            PassthroughEvent::Hyperlink {
                id: "a".to_owned(),
                uri: "u".to_owned(),
            },
            Some(b"\x1b]8;a;u\x07"),
        ),
        (
            PassthroughEvent::Hyperlink {
                id: "a".to_owned(),
                uri: String::new(),
            },
            Some(b"\x1b]8;;\x07"),
        ),
        (
            PassthroughEvent::UnhandledCsi(b"\x1b[>1u".to_vec()),
            Some(b"\x1b[>1u"),
        ),
        (PassthroughEvent::DroppedCsi(b"x".to_vec()), None),
        (PassthroughEvent::Reply(b"x".to_vec()), None),
        (PassthroughEvent::ScrollbackClear, None),
    ];
    for (event, bytes) in cases {
        assert_eq!(event.encode().as_deref(), bytes, "{event:?}");
    }
    let mut buffer = PassthroughBuffer::default();
    assert!(buffer.is_empty());
    assert!(buffer.drain().is_empty());
}

#[test]
fn osc_sequences_become_events_in_order() {
    let mut grid = DamageGrid::new(2, 10, 0);
    grid.process(
        b"\x1b]0;title\x07\x1b]+2;two\x07\x1b]1;icon\x07\x1b]7;file:///x\x07\x1b]9;msg\x07\x1b]99;note\x07\
          \x1b]52;c;SGVsbG8=\x07\x1b]300;no\x07\x1b];no\x07\x1b]0;\xff\x07\x07",
    );
    assert_eq!(
        grid.drain_passthrough(),
        vec![
            PassthroughEvent::TitleChanged("title".to_owned()),
            PassthroughEvent::TitleChanged("two".to_owned()),
            PassthroughEvent::IconNameChanged("icon".to_owned()),
            PassthroughEvent::CwdChanged("file:///x".to_owned()),
            PassthroughEvent::Notification("msg".to_owned()),
            PassthroughEvent::Notification("note".to_owned()),
            PassthroughEvent::ClipboardWrite("c;SGVsbG8=".to_owned()),
            PassthroughEvent::Bell,
        ]
    );
}

#[test]
fn hyperlink_regions_are_numbered() {
    let mut grid = DamageGrid::new(1, 10, 0);
    grid.process(b"\x1b]8;id=id=a;u\x07A\x1b]8;;v\x07B\x1b]8;;\x07C");
    let ids: Vec<u32> = (0..3)
        .map(|col| grid.cell(0, col).expect("cell").hyperlink_id)
        .collect();
    assert_eq!(ids, [1, 2, 0]);
    let link = grid.cell(0, 0).expect("cell").hyperlink.clone();
    assert_eq!(link.map(|l| (l.id, l.uri)), Some(("a".to_owned(), "u".to_owned())));
}

#[test]
fn unknown_csi_bytes_are_rebuilt() {
    let mut grid = DamageGrid::new(2, 10, 0);
    grid.process(b"\x1b[?1;2:3z\x1b[4h");
    assert_eq!(
        grid.drain_passthrough(),
        vec![
            PassthroughEvent::DroppedCsi(b"\x1b[?1;2:3z".to_vec()),
            PassthroughEvent::DroppedCsi(b"\x1b[4h".to_vec()),
        ]
    );
    assert_eq!(
        reconstruct_csi(&[vec![1, 2], vec![3]], b"", b'm'),
        b"\x1b[1:2;3m"
    );
    assert_eq!(reconstruct_csi(&[], b">", b'c'), b"\x1b[>c");
}

#[test]
fn kitty_levels_are_bounded_and_reset_on_leaving_the_alternate_screen() {
    let mut grid = DamageGrid::new(2, 10, 0);
    for _ in 0..70 {
        grid.process(b"\x1b[>3u");
    }
    assert_eq!(grid.kitty_kb_flags(), 3);
    drop(grid.drain_passthrough());
    grid.process(b"\x1b[<62u");
    assert_eq!(grid.kitty_kb_flags(), 3);
    drop(grid.drain_passthrough());
    grid.process(b"\x1b[?1049h\x1b[?1049l");
    assert_eq!(
        grid.drain_passthrough(),
        vec![
            PassthroughEvent::UnhandledCsi(b"\x1b[<u".to_vec()),
            PassthroughEvent::UnhandledCsi(b"\x1b[<u".to_vec()),
        ]
    );
    assert_eq!(grid.kitty_kb_flags(), 0);
    grid.process(b"\x1b[>5u");
    grid.clear_kitty_kb_stack();
    assert_eq!(grid.kitty_kb_flags(), 0);
}

// ── Queries ─────────────────────────────────────────────────────────────────

#[test]
fn decrqm_reports_kept_modes() {
    let mut grid = DamageGrid::new(2, 10, 0);
    for mode in [1, 12, 47, 1000, 1002, 1003, 1004, 1005, 1006, 1015, 1047, 1049, 2004, 2026] {
        assert_eq!(grid.decrqm_status(mode), 2, "{mode} reset");
        grid.process(format!("\x1b[?{mode}h").as_bytes());
        assert_eq!(grid.decrqm_status(mode), 1, "{mode} set");
        grid.process(format!("\x1b[?{mode}l").as_bytes());
        assert_eq!(grid.decrqm_status(mode), 2, "{mode} reset again");
    }
    for mode in [7, 25] {
        assert_eq!(grid.decrqm_status(mode), 1, "{mode}");
    }
    for mode in [0, 3, 2027, 9999] {
        assert_eq!(grid.decrqm_status(mode), 0, "{mode}");
    }
    drop(grid.drain_passthrough());
    grid.process(b"\x1b[?25$p\x1b[4$p\x1b[5n\x1b[?6n\x1b[>c\x1b[>q");
    assert_eq!(
        grid.drain_passthrough(),
        vec![
            PassthroughEvent::Reply(b"\x1b[?25;1$y".to_vec()),
            PassthroughEvent::Reply(b"\x1b[4;0$y".to_vec()),
            PassthroughEvent::Reply(b"\x1b[0n".to_vec()),
            PassthroughEvent::Reply(b"\x1b[?1;1;1R".to_vec()),
            PassthroughEvent::Reply(b"\x1b[>0;0;0c".to_vec()),
        ]
    );
}

#[test]
fn mode_getters_follow_the_sequences() {
    let mut grid = DamageGrid::new(2, 10, 0);
    assert!(grid.autowrap() && grid.text_cursor_enable().is_none());
    grid.process(b"\x1b[?12;7;1002;1006;1004;2026h\x1b[?12l\x1b=");
    assert_eq!(grid.text_cursor_enable(), Some(false));
    assert_eq!(grid.mouse_protocol_mode(), MouseProtocolMode::ButtonMotion);
    assert_eq!(grid.mouse_protocol_encoding(), MouseProtocolEncoding::Sgr);
    assert!(grid.focus_events() && grid.in_synchronized_update() && grid.application_keypad());
    grid.process(b"\x1bc");
    assert_eq!(grid.text_cursor_enable(), None);
    assert_eq!(grid.mouse_protocol_mode(), MouseProtocolMode::Off);
    assert_eq!(grid.mouse_protocol_encoding(), MouseProtocolEncoding::Default);
    assert!(!grid.focus_events() && !grid.in_synchronized_update() && !grid.application_keypad());
}

#[test]
fn mid_sequence_follows_the_parser() {
    let cases: [(&[u8], bool); 14] = [
        (b"abc", false),
        (b"\x1b", true),
        (b"\x1b(", true),
        (b"\x1b(B", false),
        (b"\x1b[1;2", true),
        (b"\x1b[1;2H", false),
        (b"\x1b]0;x", true),
        (b"\x1b]0;x\x07", false),
        (b"\x1b]0;x\x1b\\", false),
        (b"\x1bP1", true),
        (b"\x1bP1\x9cx", true),
        (b"\x1bPq\x9cx", false),
        (b"\x1b_a", true),
        (b"\x1b_a\x18", false),
    ];
    for (bytes, expected) in cases {
        let mut grid = DamageGrid::new(2, 10, 0);
        grid.process(bytes);
        assert_eq!(grid.mid_sequence(), expected, "{bytes:?}");
    }
}

// ── Printing ────────────────────────────────────────────────────────────────

#[test]
fn wrap_off_overwrites_the_last_column_and_drops_wide_glyphs() {
    let mut grid = DamageGrid::new(2, 4, 0);
    grid.process(b"\x1b[?7labcdefg");
    assert_eq!(text(&grid, 0), "abcg");
    assert_eq!(grid.cursor_position(), (0, 4));
    grid.process("界".as_bytes());
    assert_eq!(text(&grid, 0), "abcg");
    grid.process("\u{301}".as_bytes());
    assert_eq!(grid.cell(0, 3).expect("cell").contents(), "g\u{301}");
    grid.process(b"\x1b[?7hZ");
    assert_eq!(text(&grid, 1), "Z");
}

#[test]
fn parked_cursor_is_saved_restored_and_backed_out_of() {
    let mut grid = DamageGrid::new(2, 4, 0);
    grid.process(b"abcd\x1b7\x1b[H\x1b8");
    assert_eq!(grid.cursor_position(), (0, 4));
    grid.process(b"\x08");
    assert_eq!(grid.cursor_position(), (0, 3));
    grid.process(b"\x1b[4Gx\x1b[s\x1b[2;1H\x1b[u");
    assert_eq!(grid.cursor_position(), (0, 4));
}

#[test]
fn soft_reset_cancels_a_pending_wrap_in_place() {
    let mut grid = DamageGrid::new(2, 4, 0);
    grid.process(b"abcd\x1b[!p");
    assert_eq!(grid.cursor_position(), (0, 4));
    grid.process("Z\u{301}".as_bytes());
    assert_eq!(grid.cursor_position(), (0, 4));
    assert_eq!(text(&grid, 0), "abcd");
    assert_eq!(text(&grid, 1), "");
    assert_eq!(grid.cell(0, 3).expect("cell").contents(), "d");
    let copy = grid.replica(0);
    assert!(copy.state_eq(&grid));
    grid.process(b"\x1b8");
    assert_eq!(grid.cursor_position(), (0, 3));
    grid.process(b"xyz");
    assert_eq!(text(&grid, 0), "abcx");
    assert_eq!(text(&grid, 1), "yz");
    grid.process(b"\x1b[1;4Hd\x1b[!p\x1b[?7lw");
    assert_eq!(text(&grid, 0), "abcw");
    grid.process(b"\x1b[?7hv");
    assert_eq!(text(&grid, 1), "vz");
}

#[test]
fn orphan_wide_lead_gets_its_column_when_the_grid_grows() {
    let mut grid = DamageGrid::new(1, 3, 0);
    grid.process("ab界".as_bytes());
    assert!(grid.cell(0, 2).expect("lead").is_wide);
    grid.set_size(1, 5);
    assert!(grid.cell(0, 3).expect("continuation").is_wide_continuation);
    assert!(!grid.cell(0, 4).expect("blank").has_contents());
    grid.set_size(1, 3);
    assert!(grid.cell(0, 2).expect("lead").is_wide);
    assert_eq!(grid.cell(0, 3), None);
    assert_eq!(grid.cell(1, 0), None);
}

#[test]
fn deleting_characters_never_pairs_foreign_halves() {
    let mut grid = DamageGrid::new(1, 6, 0);
    grid.process("\x1b[31m界\x1b[32m你\x1b[0mz\x1b[1;2H\x1b[2P".as_bytes());
    let cells: Vec<(String, bool, bool)> = (0..6)
        .map(|col| {
            let cell = grid.cell(0, col).expect("cell");
            (
                cell.contents().to_owned(),
                cell.is_wide,
                cell.is_wide_continuation,
            )
        })
        .collect();
    let blank = (String::new(), false, false);
    assert_eq!(
        cells,
        vec![
            blank.clone(),
            blank.clone(),
            ("z".to_owned(), false, false),
            blank.clone(),
            blank.clone(),
            blank,
        ]
    );
}

#[test]
fn a_parked_cursor_inserts_nothing() {
    let mut grid = DamageGrid::new(1, 3, 0);
    grid.process("ab界".as_bytes());
    drop(grid.dirty_spans());
    grid.process(b"\x1b[2@");
    assert!(grid.dirty_spans().is_empty());
    assert!(grid.cell(0, 2).expect("lead").is_wide);
    assert_eq!(grid.cell(0, 2).expect("lead").contents(), "界");
}

#[test]
fn tabs_stop_every_eight_columns() {
    let mut grid = DamageGrid::new(1, 20, 0);
    grid.process(b"\t");
    assert_eq!(grid.cursor_position(), (0, 8));
    grid.process(b"\t\t\t");
    assert_eq!(grid.cursor_position(), (0, 19));
}

#[test]
fn zero_dimensions_become_one() {
    let grid = DamageGrid::new(0, 0, 0);
    assert_eq!(grid.size(), (1, 1));
}

// ── Rows ────────────────────────────────────────────────────────────────────

#[test]
fn row_helpers_keep_wide_pairs_together() {
    let blank = Cell::default();
    let mut row = wide_row();
    assert_eq!(
        row.iter().map(cell_width).collect::<Vec<_>>(),
        [1, 2, 0, 1, 2, 0]
    );
    erase_cells_bce(&mut row, 2, 5, &blank);
    assert_eq!(
        row.iter().map(|c| c.contents()).collect::<Vec<_>>(),
        ["a", "", "", "", "", ""]
    );
    assert!(row.iter().all(|c| !c.is_wide && !c.is_wide_continuation));

    let mut row = wide_row();
    row.swap(2, 3);
    repair_wide_pairs(&mut row);
    assert_eq!(
        row.iter().map(|c| c.contents()).collect::<Vec<_>>(),
        ["a", "", "b", "", "你", ""]
    );

    let mut row = wide_row();
    set_cell_width(&mut row, 0, 2, Attrs::default(), 6);
    assert!(row[0].is_wide && row[1].is_wide_continuation && row[2] == blank);
    set_cell_width(&mut row, 0, 1, Attrs::default(), 6);
    assert!(!row[0].is_wide && row[1] == blank);
    assert_eq!(blank_row(3), vec![Cell::default(); 3]);
}

#[test]
fn arena_hands_recycled_rows_out_blank() {
    let arena = RowArena::default();
    arena.recycle(wide_row());
    assert_eq!(arena.recycled_rows(), 1);
    assert_eq!(arena.blank_row(6), blank_row(6));
    assert_eq!(arena.recycled_rows(), 0);
    assert_eq!(arena.blank_row(2), blank_row(2));
}

#[test]
fn pools_hand_out_the_first_row_that_fits() {
    let mut rows: Vec<Vec<Cell>> = Vec::new();
    assert_eq!(pool_take(&mut rows, 3), None);
    for cols in [2, 3, 4, 3, 5] {
        pool_give(&mut rows, blank_row(cols));
    }
    assert_eq!(pool_take(&mut rows, 3), Some(blank_row(3)));
    assert_eq!(
        rows.iter().map(Vec::len).collect::<Vec<_>>(),
        [2, 5, 4, 3]
    );
    assert_eq!(pool_take(&mut rows, 6), None);
    assert_eq!(rows.len(), 4);
    let mut full = vec![Vec::new(); MAX_RECYCLED_ROWS];
    pool_give(&mut full, blank_row(1));
    assert_eq!(full.len(), MAX_RECYCLED_ROWS);
}

// ── Scrollback ──────────────────────────────────────────────────────────────

#[test]
fn scrollback_offsets_are_clamped_and_cleared() {
    let mut grid = DamageGrid::new(2, 8, 3);
    for i in 0..6 {
        grid.process(format!("line{i}\r\n").as_bytes());
    }
    assert_eq!(grid.scrollback_len(), 3);
    grid.set_scrollback(2);
    assert_eq!(grid.scrollback(), 2);
    grid.set_scrollback(9);
    assert_eq!(grid.scrollback(), 3);
    let rows: Vec<String> = grid
        .scrollback_rows_at_offset(9, 2)
        .into_iter()
        .map(|row| row.iter().map(|c| c.contents()).collect())
        .collect();
    assert_eq!(rows, ["line3", "line2"]);
    assert!(grid.scrollback_rows_at_offset(0, 2).is_empty());
    let view = grid.dump_scrollback_view(1, 2);
    assert_eq!(view.to_text(), "line4\nline5");
    assert_eq!(grid.scroll_affordance_metrics(), (1, 2, 8, 1, 0));
    grid.process(b"\x1b[3J");
    assert_eq!(grid.scrollback_len(), 0);
    assert_eq!(grid.scrollback(), 0);
    assert_eq!(
        grid.drain_passthrough(),
        vec![PassthroughEvent::ScrollbackClear]
    );
    grid.process(b"x\r\ny\r\nz");
    assert_eq!(grid.scrollback_len(), 2);
    grid.clear_scrollback();
    assert_eq!(grid.scrollback_len(), 0);
}

#[test]
fn scroll_metrics_report_a_full_viewport_as_zero() {
    let mut grid = DamageGrid::new(3, 4, 0);
    assert_eq!(grid.scroll_affordance_metrics(), (0, 3, 4, 0, 0));
    grid.process(b"a\r\nb");
    assert_eq!(grid.scroll_affordance_metrics(), (2, 3, 4, 1, 1));
    grid.process(b"\r\nc");
    assert_eq!(grid.scroll_affordance_metrics(), (0, 3, 4, 2, 1));
}

#[test]
fn borrowed_views_tell_their_size_and_cursor() {
    let mut grid = DamageGrid::new(3, 4, 5);
    grid.process(b"a\r\nb\r\nc\r\nd\x1b[?47h");
    let view = grid.scrollback_view(1, 2);
    assert_eq!((view.rows(), view.cols()), (2, 4));
    assert_eq!(view.cursor(), (2, 1));
    assert!(view.alternate_screen());
    let patch = grid.dump_dirty_patch();
    assert_eq!((patch.rows(), patch.cols()), (3, 4));
    assert_eq!(patch.cursor(), (2, 1));
    assert!(patch.alternate_screen());
}

#[test]
fn alternate_screen_keeps_the_primary_one() {
    let mut grid = DamageGrid::new(2, 8, 3);
    grid.process(b"main\x1b[?1049halt\x1b[?1049l");
    assert_eq!(text(&grid, 0), "main");
    assert_eq!(grid.cursor_position(), (0, 4));
    grid.process(b"\x1b[?47h");
    assert!(grid.alternate_screen());
    assert_eq!(text(&grid, 0), "alt");
}

#[test]
fn alternate_screen_never_reaches_primary_screen_or_history() {
    let mut grid = DamageGrid::new(2, 8, 3);
    grid.process(b"a\r\nb\r\nc");
    assert_eq!(grid.scrollback_len(), 1);
    grid.process(b"\x1b[?1049hx\r\ny\r\nz\r\n\x1b[2J\x1b[3S\x1b[L\x1b[?47h");
    assert_eq!(grid.scrollback_len(), 1);
    grid.process(b"\x1b[?1049l");
    assert_eq!(text(&grid, 0), "b");
    assert_eq!(text(&grid, 1), "c");
    assert_eq!(grid.scrollback_len(), 1);
}

// ── Serialization ───────────────────────────────────────────────────────────

#[test]
fn serialized_bytes_are_exact() {
    let mut grid = DamageGrid::new(2, 4, 0);
    grid.process(b"\x1b[31ma\x1b[0mb");
    assert_eq!(
        grid.contents_formatted(),
        b"\x1b[?7h\x1b[?25h\x1b[m\x1b[H\x1b[J\x1b[31ma\x1b[mb"
    );
    assert_eq!(
        grid.input_mode_formatted(),
        b"\x1b[?7h\x1b>\x1b[?1l\x1b[?2004l\x1b[?25h\x1b[0 q"
    );
    assert_eq!(grid.input_mode_diff(&grid), b"");
    assert_eq!(grid.contents_diff(&grid), b"\x1b[?7h");
    let mut next = grid.replica(0);
    next.process(b"\x1b[2;3H\x1b[1;4:3;48;5;200mX\x1b[?25l");
    assert_eq!(
        next.state_diff(&grid),
        b"\x1b[?25l\x1b[?7h\x1b[?25l\x1b[2;3H\x1b[48;5;200;22;1;4:3mX"
    );
}

// ── Damage ──────────────────────────────────────────────────────────────────

#[test]
fn many_dirty_rows_become_everything() {
    let mut dirty = DirtyTracker::default();
    for row in 0..64 {
        dirty.mark_cell(row, 3);
    }
    let DirtySpans::Rows(rows) = dirty.take() else {
        panic!("expected rows");
    };
    assert_eq!(rows.len(), 64);
    assert!(rows.contains(63) && !rows.contains(64) && !rows.is_empty());
    for row in 0..65 {
        dirty.mark_cell(row, 3);
    }
    assert!(matches!(dirty.take(), DirtySpans::All));
    assert!(!dirty.is_dirty());
    dirty.mark_cell(0, u16::MAX);
    assert!(!dirty.is_dirty());
    dirty.resize(5);
    assert!(dirty.is_dirty());
    assert!(!dirty.take().is_empty());
    assert!(dirty.take().is_empty());
    assert!(DirtySpan::full_row(3).is_full_row());
}

// ── Text and colors ─────────────────────────────────────────────────────────

#[test]
fn widths_come_from_the_tables() {
    let profile = VirtualTerminalProfile::default();
    assert_eq!(profile.char_width('a'), 1);
    assert_eq!(profile.char_width('界'), 2);
    assert_eq!(profile.char_width('\u{301}'), 0);
    assert_eq!(profile.char_width('\u{7f}'), 1);
    assert_eq!(display_width(""), 0);
    assert_eq!(display_width("界界"), 2);
    assert_eq!(profile.default_reported_color(12), None);
    assert_eq!(profile.decrqm_status(1), 0);
}

#[test]
fn columns_are_capped_at_two() {
    assert_eq!(columns_for_entry(None), 1);
    assert_eq!(columns_for_entry(Some(0)), 0);
    assert_eq!(columns_for_entry(Some(2)), 2);
    assert_eq!(columns_for_entry(Some(3)), 2);
    assert_eq!(columns_for_sum(1, 0), 1);
    assert_eq!(columns_for_sum(1, 1), 2);
    assert_eq!(columns_for_sum(2, u16::MAX), 2);
    assert_eq!(columns_for_sum(0x1_0001, 0), 1);
}

#[test]
fn every_attribute_needs_its_capability() {
    let plain = Attrs::default();
    let cases = [
        (0, Attrs { bold: true, ..plain }),
        (1, Attrs { dim: true, ..plain }),
        (2, Attrs { italic: true, ..plain }),
        (3, Attrs { underline_style: UnderlineStyle::Single, ..plain }),
        (4, Attrs { underline_style: UnderlineStyle::Curly, ..plain }),
        (5, Attrs { underline_color: Color::Rgb(1, 2, 3), ..plain }),
        (6, Attrs { inverse: true, ..plain }),
        (7, Attrs { strikethrough: true, ..plain }),
        (8, Attrs { slow_blink: true, ..plain }),
        (8, Attrs { rapid_blink: true, ..plain }),
        (9, Attrs { conceal: true, ..plain }),
        (10, Attrs { overline: true, ..plain }),
        (11, Attrs { foreground: Color::Idx(42), ..plain }),
        (12, Attrs { background: Color::Rgb(1, 2, 3), ..plain }),
    ];
    for (bit, attrs) in cases {
        let mut profile = VirtualTerminalProfile::default();
        assert!(profile.attrs_supported(&attrs), "bit {bit} set");
        profile.supported_sgr.flags &= !(1 << bit);
        assert!(!profile.attrs_supported(&attrs), "bit {bit} clear");
        assert!(profile.attrs_supported(&plain));
    }
    let mut profile = VirtualTerminalProfile::default();
    profile.supported_sgr.flags &= !(1 << 4);
    assert!(profile.attrs_supported(&Attrs { underline_style: UnderlineStyle::Single, ..plain }));
}

#[test]
fn cut_characters_are_held_back() {
    assert_eq!(incomplete_utf8_suffix_len(b""), 0);
    assert_eq!(incomplete_utf8_suffix_len(b"abc"), 0);
    assert_eq!(incomplete_utf8_suffix_len("é".as_bytes()), 0);
    assert_eq!(incomplete_utf8_suffix_len(&[b'a', 0xc3]), 1);
    assert_eq!(incomplete_utf8_suffix_len(&[0xc3, 0xa9, 0xf0, 0x9f]), 2);
    assert_eq!(incomplete_utf8_suffix_len(&[0x80, 0xc3]), 2);
}

#[test]
fn extended_colors_parse_in_both_forms() {
    assert_eq!(parse_sgr_color_values(&[5, 300]), Some(Color::Idx(255)));
    assert_eq!(
        parse_sgr_color_values(&[2, 1, 2, 3]),
        Some(Color::Rgb(1, 2, 3))
    );
    assert_eq!(
        parse_sgr_color_values(&[2, 0, 1, 2, 3]),
        Some(Color::Rgb(1, 2, 3))
    );
    assert_eq!(parse_sgr_color_values(&[2, 1, 2]), None);
    assert_eq!(parse_sgr_color_values(&[5]), None);
    assert_eq!(parse_sgr_color_values(&[3, 1]), None);
    assert_eq!(parse_sgr_color_values(&[]), None);
    let params = vec![vec![38], vec![5], vec![7], vec![2]];
    let mut i = 0;
    assert_eq!(
        parse_sgr_color(&params[0], &params, &mut i),
        Some(Color::Idx(7))
    );
    assert_eq!(i, 2);
    let mut i = 3;
    assert_eq!(parse_sgr_color(&params[3], &params, &mut i), None);
    assert_eq!(i, 3);
    assert_eq!(underline_style_from_sgr(0), UnderlineStyle::Off);
    assert_eq!(underline_style_from_sgr(1), UnderlineStyle::Single);
    assert_eq!(underline_style_from_sgr(2), UnderlineStyle::Double);
    assert_eq!(underline_style_from_sgr(9), UnderlineStyle::Single);
}

#[test]
fn sixteen_color_sgr_sets_palette_indices() {
    let mut grid = DamageGrid::new(1, 8, 0);
    grid.process(b"\x1b[31;42mA\x1b[91;102;21mB\x1b[39;49;24mC");
    let colors: Vec<(Color, Color)> = (0..3)
        .map(|col| {
            let cell = grid.cell(0, col).expect("cell");
            (cell.fgcolor(), cell.bgcolor())
        })
        .collect();
    assert_eq!(
        colors,
        [
            (Color::Idx(1), Color::Idx(2)),
            (Color::Idx(9), Color::Idx(10)),
            (Color::Default, Color::Default),
        ]
    );
    assert_eq!(
        grid.cell(0, 1).expect("cell").attrs.underline_style,
        UnderlineStyle::Double
    );
    assert!(!grid.cell(0, 2).expect("cell").underline());
}
