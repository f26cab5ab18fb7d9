//! Serialized states replay exactly, over pseudo-random byte streams.

use termpane::DamageGrid;

/// A small deterministic generator of numbers.
struct Rng(u64);

impl Rng {
    fn next(&mut self) -> u64 {
        self.0 = self
            .0
            .wrapping_mul(6_364_136_223_846_793_005)
            .wrapping_add(1_442_695_040_888_963_407);
        self.0 >> 33
    }

    fn below(&mut self, n: usize) -> usize {
        (self.next() % n as u64) as usize
    }
}

const TEXT: &[&[u8]] = &[
    b"abc",
    b"Hello",
    "界你".as_bytes(),
    "🦀x".as_bytes(),
    "a\u{301}".as_bytes(),
    "\u{302}".as_bytes(),
    "👨\u{200d}👩".as_bytes(),
    "\u{200d}👧".as_bytes(),
    "x\u{200d}".as_bytes(),
];

const COLORS: &[&[u8]] = &[
    b"\x1b[4:2m",
    b"\x1b[4:3m",
    b"\x1b[38;2;10;20;30m",
    b"\x1b[48;5;200m",
    b"\x1b[58;5;9m",
    b"\x1b[m",
];

const MOVES: &[&[u8]] = &[
    b"\x1b[H",
    b"\x1b[2;3H",
    b"\x1b[A",
    b"\x1b[2B",
    b"\x1b[C",
    b"\x1b[3D",
    b"\x1b[5G",
    b"\x1b[2d",
    b"\x1b7",
    b"\x1b8",
    b"\x1b[s",
    b"\x1b[u",
    b"\x1bM",
];

const EDITS: &[&[u8]] = &[
    b"\x1b[J",
    b"\x1b[2J",
    b"\x1b[?J",
    b"\x1b[?2J",
    b"\x1b[K",
    b"\x1b[2K",
    b"\x1b[?K",
    b"\x1b[2X",
    b"\x1b[@",
    b"\x1b[P",
    b"\x1b[L",
    b"\x1b[M",
    b"\x1b[S",
    b"\x1b[T",
    b"\x1b[1;3r",
    b"\x1b[r",
    b"\x1b[2P",
    b"\x1b[3@",
];

const MODES: &[&[u8]] = &[
    b"\x1b[?7h",
    b"\x1b[?7l",
    b"\x1b[?25h",
    b"\x1b[?25l",
    b"\x1b[?1h",
    b"\x1b[?1l",
    b"\x1b[?12h",
    b"\x1b[?12l",
    b"\x1b=",
    b"\x1b>",
    b"\x1b[?2004h",
    b"\x1b[?2004l",
    b"\x1b[?2026h",
    b"\x1b[?2026l",
    b"\x1b[?1000h",
    b"\x1b[?1002h",
    b"\x1b[?1003h",
    b"\x1b[?1003l",
    b"\x1b[?1004h",
    b"\x1b[?1004l",
    b"\x1b[?1005h",
    b"\x1b[?1006h",
    b"\x1b[?1015h",
    b"\x1b[?47h",
    b"\x1b[?47l",
    b"\x1b[?1047h",
    b"\x1b[?1047l",
    b"\x1b[?1049h",
    b"\x1b[?1049l",
    b"\x1b[3 q",
    b"\x1b[0 q",
    b"\x1b[!p",
];

const CONTROLS: &[&[u8]] = &[b"\r", b"\n", b"\x08", b"\t", b"\x07", b"\x0b"];

fn pick<'a>(rng: &mut Rng, pieces: &[&'a [u8]]) -> &'a [u8] {
    pieces[rng.below(pieces.len())]
}

fn stream(rng: &mut Rng) -> Vec<u8> {
    let mut out = Vec::new();
    for _ in 0..rng.below(48) {
        match rng.below(16) {
            0..=3 => out.extend_from_slice(pick(rng, TEXT)),
            4..=6 => out.extend_from_slice(format!("\x1b[{}m", rng.below(61)).as_bytes()),
            7 => out.extend_from_slice(pick(rng, COLORS)),
            8..=10 => out.extend_from_slice(pick(rng, MOVES)),
            11..=12 => out.extend_from_slice(pick(rng, EDITS)),
            13..=14 => out.extend_from_slice(pick(rng, MODES)),
            _ => out.extend_from_slice(pick(rng, CONTROLS)),
        }
    }
    out
}

fn dimensions(rng: &mut Rng) -> (u16, u16) {
    (2 + rng.below(5) as u16, 2 + rng.below(11) as u16)
}

/// Visible cells, cursor, pen, DECAWM, and cursor visibility.
fn assert_visible_eq(replayed: &DamageGrid, expected: &DamageGrid) {
    let (rows, cols) = expected.size();
    for row in 0..rows {
        for col in 0..cols {
            let expected_cell = expected.cell(row, col).expect("cell");
            let replayed_cell = replayed.cell(row, col).expect("cell");
            assert_eq!(
                replayed_cell.contents(),
                expected_cell.contents(),
                "cell ({row},{col})"
            );
            assert_eq!(replayed_cell.is_wide, expected_cell.is_wide);
            assert_eq!(
                replayed_cell.is_wide_continuation,
                expected_cell.is_wide_continuation
            );
            assert_eq!(
                &replayed_cell.attrs, &expected_cell.attrs,
                "cell ({row},{col}) attrs"
            );
        }
    }
    assert_eq!(replayed.cursor_position(), expected.cursor_position());
    assert_eq!(replayed.current_attrs(), expected.current_attrs());
    assert_eq!(replayed.autowrap(), expected.autowrap());
    assert_eq!(replayed.hide_cursor(), expected.hide_cursor());
}

#[test]
fn state_formatted_replays_exactly() {
    let mut rng = Rng(1);
    for _ in 0..256 {
        let stream = stream(&mut rng);
        let (rows, cols) = dimensions(&mut rng);
        let mut grid = DamageGrid::new(rows, cols, 5);
        grid.process(&stream);
        let mut replayed = DamageGrid::new(rows, cols, 5);
        replayed.process(&grid.state_formatted());
        assert!(
            grid.state_eq(&replayed),
            "state_formatted round-trip mismatch\nstream: {stream:?}\nstate: {:?}",
            grid.dump().to_text(),
        );
    }
}

#[test]
fn state_diff_replays_exactly() {
    let mut rng = Rng(2);
    for _ in 0..256 {
        let stream_a = stream(&mut rng);
        let stream_b = stream(&mut rng);
        let (rows, cols) = dimensions(&mut rng);
        let mut cur = DamageGrid::new(rows, cols, 5);
        cur.process(&stream_a);

        // The prev-state grid: a replay of cur's own serialization (this also
        // exercises the formatted property on the intermediate state).
        let mut prev = DamageGrid::new(rows, cols, 5);
        prev.process(&cur.state_formatted());
        assert!(cur.state_eq(&prev), "intermediate state_formatted mismatch");

        cur.process(&stream_b);
        let diff = cur.state_diff(&prev);
        prev.process(&diff);
        assert!(
            cur.state_eq(&prev),
            "state_diff round-trip mismatch\nstream_a: {stream_a:?}\nstream_b: {stream_b:?}\nstate: {:?}",
            cur.dump().to_text(),
        );
    }
}

#[test]
fn contents_formatted_replays_visible_state() {
    let mut rng = Rng(3);
    for _ in 0..256 {
        let stream = stream(&mut rng);
        let (rows, cols) = dimensions(&mut rng);
        let mut grid = DamageGrid::new(rows, cols, 5);
        grid.process(&stream);
        let mut replayed = DamageGrid::new(rows, cols, 5);
        replayed.process(&grid.contents_formatted());
        assert_visible_eq(&replayed, &grid);
    }
}

#[test]
fn input_mode_formatted_replays_modes() {
    let mut rng = Rng(4);
    for _ in 0..256 {
        let stream = stream(&mut rng);
        let (rows, cols) = dimensions(&mut rng);
        let mut grid = DamageGrid::new(rows, cols, 5);
        grid.process(&stream);
        let mut replayed = DamageGrid::new(rows, cols, 5);
        replayed.process(&grid.input_mode_formatted());
        assert_eq!(replayed.autowrap(), grid.autowrap());
        assert_eq!(replayed.application_keypad(), grid.application_keypad());
        assert_eq!(replayed.application_cursor(), grid.application_cursor());
        assert_eq!(replayed.bracketed_paste(), grid.bracketed_paste());
        assert_eq!(replayed.alternate_screen(), grid.alternate_screen());
        assert_eq!(replayed.hide_cursor(), grid.hide_cursor());
        assert_eq!(replayed.cursor_style(), grid.cursor_style());
    }
}

#[test]
fn contents_diff_replays_visible_state() {
    let mut rng = Rng(5);
    for _ in 0..128 {
        let first = stream(&mut rng);
        let second = stream(&mut rng);
        let (rows, cols) = dimensions(&mut rng);
        let mut prev = DamageGrid::new(rows, cols, 5);
        prev.process(&first);
        let mut now = DamageGrid::new(rows, cols, 5);
        now.process(&second);
        let mut shown = DamageGrid::new(rows, cols, 5);
        shown.process(&prev.contents_formatted());
        shown.process(&now.contents_diff(&prev));
        assert_visible_eq(&shown, &now);
    }
}

#[test]
fn streams_may_be_cut_anywhere() {
    let mut rng = Rng(6);
    for _ in 0..64 {
        let mut bytes = stream(&mut rng);
        bytes.extend_from_slice(&[0xc3, 0x28, 0xe4, 0xbd, 0x1b, b'P', b'q', 0xc2, 0x9c, b'z']);
        bytes.extend_from_slice(&[0xf0, 0x9f]);
        let (rows, cols) = dimensions(&mut rng);
        let mut whole = DamageGrid::new(rows, cols, 5);
        whole.process(&bytes);
        let cut = rng.below(bytes.len() + 1);
        let mut parts = DamageGrid::new(rows, cols, 5);
        parts.process(&bytes[..cut]);
        parts.process(&bytes[cut..]);
        assert!(whole.state_eq(&parts), "cut at {cut}: {bytes:?}");
        assert_eq!(whole.mid_sequence(), parts.mid_sequence());
        assert_eq!(whole.drain_passthrough(), parts.drain_passthrough());
        assert_eq!(whole.drain_scroll_ops(), parts.drain_scroll_ops());
        assert_eq!(whole.scrollback_len(), parts.scrollback_len());
    }
}

#[test]
fn replica_equals_and_follows() {
    let mut prev = DamageGrid::new(4, 9, 20);
    prev.process("one\r\n\x1b[1;41mtwo 界\x1b[K\x1b[0m\x1b[?1049halt".as_bytes());
    let mut copy = prev.replica(0);
    assert!(copy.state_eq(&prev));
    let mut now = prev.replica(20);
    now.process(b"\x1b[?1049l\x1b[3;1Hthree\x1b[?25l");
    copy.follow(&prev, &now);
    assert!(copy.state_eq(&now));
    assert!(!copy.state_eq(&prev));
}

#[test]
fn damage_covers_every_changed_cell() {
    let mut rng = Rng(7);
    for _ in 0..128 {
        let first = stream(&mut rng);
        let second = stream(&mut rng);
        let (rows, cols) = dimensions(&mut rng);
        let mut grid = DamageGrid::new(rows, cols, 5);
        grid.process(&first);
        let mut before = DamageGrid::new(rows, cols, 5);
        before.process(&first);
        drop(grid.dirty_spans());
        grid.process(&second);
        let mut dirty = vec![vec![false; cols as usize]; rows as usize];
        let patch = grid.dump_dirty_patch();
        for (row, start, cells) in patch.changed_spans() {
            for i in 0..cells.len() {
                dirty[row as usize][start as usize + i] = true;
            }
        }
        for row in 0..rows {
            for col in 0..cols {
                if before.cell(row, col) != grid.cell(row, col) {
                    assert!(
                        dirty[row as usize][col as usize],
                        "({row},{col}) changed unmarked by {second:?}"
                    );
                }
            }
        }
    }
}
