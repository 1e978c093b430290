use term_engine::grid::Color;
use term_engine::grid::TerminalCell;
use term_engine::grid::TerminalGrid;
use term_engine::interpreter::EscapeSequenceInterpreter;

fn feed(interp: &mut EscapeSequenceInterpreter, grid: &mut TerminalGrid, s: &str) {
    let bytes: Vec<u8> = s.bytes().collect();
    interp.advance_bytes(grid, &bytes);
}

fn setup(cols: usize, rows: usize) -> (EscapeSequenceInterpreter, TerminalGrid) {
    (EscapeSequenceInterpreter::new(), TerminalGrid::new(cols, rows))
}

#[test]
fn sgr_red_then_reset() {
    // "\x1b[31mA\x1b[0mB": cell 0 is ('A', red fg, default bg), cell 1 is
    // ('B', default fg, default bg).
    let (mut it, mut g) = setup(80, 24);
    feed(&mut it, &mut g, "\x1b[31mA\x1b[0mB");
    let c0 = g.cells[0][0];
    assert_eq!(c0.ch, 'A');
    assert_eq!(c0.fg, Color::Red);
    assert_eq!(c0.bg, Color::Default);
    let c1 = g.cells[0][1];
    assert_eq!(c1.ch, 'B');
    assert_eq!(c1.fg, Color::Default);
    assert_eq!(c1.bg, Color::Default);
}

#[test]
fn cursor_position_then_print() {
    // "\x1b[5;10H" then 'X' lands at row 4, column 9 (0-indexed).
    let (mut it, mut g) = setup(80, 24);
    feed(&mut it, &mut g, "\x1b[5;10HX");
    assert_eq!(g.cells[4][9].ch, 'X');
}

#[test]
fn cursor_position_clamped_on_small_grid() {
    let (mut it, mut g) = setup(5, 3);
    feed(&mut it, &mut g, "\x1b[5;10H");
    // row 5, column 10 clamp to the bottom-right cell
    assert_eq!((g.cursor.x, g.cursor.y), (4, 2));
    // printing there fills the corner and triggers one scroll
    feed(&mut it, &mut g, "X");
    assert_eq!(g.cells[1][4].ch, 'X');
    assert_eq!((g.cursor.x, g.cursor.y), (0, 2));
}

#[test]
fn erase_display_clears_everything_and_homes_cursor() {
    // "\x1b[2J" clears every cell to default and resets the cursor.
    let (mut it, mut g) = setup(10, 4);
    feed(&mut it, &mut g, "\x1b[33mhello\x1b[2J");
    for y in 0..4 {
        for x in 0..10 {
            assert_eq!(g.cells[y][x], TerminalCell::default());
        }
        assert!(g.dirty_lines[y]);
    }
    assert_eq!((g.cursor.x, g.cursor.y), (0, 0));
    assert!(g.cursor.visible);
}

#[test]
fn unknown_csi_final_byte_is_ignored() {
    // "\x1b[99zQ" must not crash; 'Q' prints right after, at the
    // pre-sequence cursor position.
    let (mut it, mut g) = setup(80, 24);
    feed(&mut it, &mut g, "\x1b[99zQ");
    assert_eq!(g.cells[0][0].ch, 'Q');
    assert_eq!((g.cursor.x, g.cursor.y), (1, 0));
}

#[test]
fn printing_full_row_wraps_to_next_row() {
    // printing `cols` characters starting at column 0 leaves the cursor at
    // (0, row + 1) with all characters present in that row.
    let (mut it, mut g) = setup(4, 3);
    feed(&mut it, &mut g, "abcd");
    assert_eq!(g.cells[0][0].ch, 'a');
    assert_eq!(g.cells[0][1].ch, 'b');
    assert_eq!(g.cells[0][2].ch, 'c');
    assert_eq!(g.cells[0][3].ch, 'd');
    assert_eq!((g.cursor.x, g.cursor.y), (0, 1));
}

#[test]
fn printing_full_last_row_scrolls_once() {
    let (mut it, mut g) = setup(4, 3);
    feed(&mut it, &mut g, "\x1b[3;1Habcd");
    // one scroll: the characters ended one row higher, the last row is
    // blank, the cursor sits at column 0 of the last row.
    assert_eq!(g.cells[1][0].ch, 'a');
    assert_eq!(g.cells[1][3].ch, 'd');
    for x in 0..4 {
        assert_eq!(g.cells[2][x], TerminalCell::default());
    }
    assert_eq!((g.cursor.x, g.cursor.y), (0, 2));
}

#[test]
fn line_feed_carriage_return_and_backspace() {
    let (mut it, mut g) = setup(8, 3);
    feed(&mut it, &mut g, "ab\r\ncd");
    assert_eq!(g.cells[0][0].ch, 'a');
    assert_eq!(g.cells[0][1].ch, 'b');
    assert_eq!(g.cells[1][0].ch, 'c');
    assert_eq!(g.cells[1][1].ch, 'd');
    assert_eq!((g.cursor.x, g.cursor.y), (2, 1));
    feed(&mut it, &mut g, "\x08\x08\x08");
    assert_eq!((g.cursor.x, g.cursor.y), (0, 1));
}

#[test]
fn line_feed_on_last_row_scrolls() {
    let (mut it, mut g) = setup(3, 2);
    feed(&mut it, &mut g, "x\n");
    // the first LF moves to the last row without scrolling.
    assert_eq!((g.cursor.x, g.cursor.y), (1, 1));
    assert_eq!(g.cells[0][0].ch, 'x');
    // one more LF on the last row scrolls: 'x' is discarded.
    feed(&mut it, &mut g, "\n");
    assert_eq!((g.cursor.x, g.cursor.y), (1, 1));
    assert_eq!(g.cells[0][0], TerminalCell::default());
}

#[test]
fn tab_advances_to_next_multiple_of_eight() {
    let (mut it, mut g) = setup(20, 2);
    feed(&mut it, &mut g, "\t");
    assert_eq!(g.cursor.x, 8);
    feed(&mut it, &mut g, "\t");
    assert_eq!(g.cursor.x, 16);
    feed(&mut it, &mut g, "\t");
    // clamped to the last column
    assert_eq!(g.cursor.x, 19);
}

#[test]
fn cursor_movement_with_defaults_and_counts() {
    let (mut it, mut g) = setup(20, 10);
    feed(&mut it, &mut g, "\x1b[4;7H");
    assert_eq!((g.cursor.x, g.cursor.y), (6, 3));
    feed(&mut it, &mut g, "\x1b[A");
    assert_eq!((g.cursor.x, g.cursor.y), (6, 2));
    feed(&mut it, &mut g, "\x1b[2B");
    assert_eq!((g.cursor.x, g.cursor.y), (6, 4));
    feed(&mut it, &mut g, "\x1b[3C");
    assert_eq!((g.cursor.x, g.cursor.y), (9, 4));
    feed(&mut it, &mut g, "\x1b[5D");
    assert_eq!((g.cursor.x, g.cursor.y), (4, 4));
}

#[test]
fn cursor_movement_clamps_at_edges() {
    let (mut it, mut g) = setup(6, 4);
    feed(&mut it, &mut g, "\x1b[99A\x1b[99D");
    assert_eq!((g.cursor.x, g.cursor.y), (0, 0));
    feed(&mut it, &mut g, "\x1b[99B\x1b[99C");
    assert_eq!((g.cursor.x, g.cursor.y), (5, 3));
}

#[test]
fn huge_parameter_saturates_without_panic() {
    let (mut it, mut g) = setup(6, 4);
    feed(&mut it, &mut g, "\x1b[4294967295C");
    assert_eq!(g.cursor.x, 5);
}

#[test]
fn home_with_omitted_parameters() {
    let (mut it, mut g) = setup(10, 5);
    feed(&mut it, &mut g, "\x1b[3;4H\x1b[H");
    assert_eq!((g.cursor.x, g.cursor.y), (0, 0));
    feed(&mut it, &mut g, "\x1b[;6H");
    assert_eq!((g.cursor.x, g.cursor.y), (5, 0));
}

#[test]
fn erase_in_line_modes() {
    let (mut it, mut g) = setup(6, 2);
    feed(&mut it, &mut g, "abcdef");
    // cursor wrapped to (0, 1); go to (2, 0)
    feed(&mut it, &mut g, "\x1b[1;3H\x1b[K");
    assert_eq!(g.cells[0][0].ch, 'a');
    assert_eq!(g.cells[0][1].ch, 'b');
    for x in 2..6 {
        assert_eq!(g.cells[0][x], TerminalCell::default());
    }

    let (mut it, mut g) = setup(6, 2);
    feed(&mut it, &mut g, "abcdef\x1b[1;3H\x1b[1K");
    for x in 0..3 {
        assert_eq!(g.cells[0][x], TerminalCell::default());
    }
    assert_eq!(g.cells[0][3].ch, 'd');

    let (mut it, mut g) = setup(6, 2);
    feed(&mut it, &mut g, "abcdef\x1b[1;3H\x1b[2K");
    for x in 0..6 {
        assert_eq!(g.cells[0][x], TerminalCell::default());
    }
}

#[test]
fn erase_in_line_unknown_mode_still_marks_dirty() {
    let (mut it, mut g) = setup(4, 2);
    feed(&mut it, &mut g, "ab\x1b[7K");
    assert_eq!(g.cells[0][0].ch, 'a');
    assert_eq!(g.cells[0][1].ch, 'b');
    assert!(g.dirty_lines[0]);
}

#[test]
fn erase_display_mode_zero_clears_below() {
    let (mut it, mut g) = setup(4, 3);
    feed(&mut it, &mut g, "abc\r\ndef\r\nghi");
    feed(&mut it, &mut g, "\x1b[2;2H\x1b[J");
    // row 0 untouched
    assert_eq!(g.cells[0][0].ch, 'a');
    assert_eq!(g.cells[0][2].ch, 'c');
    // row 1: 'd' kept, rest cleared from the cursor on
    assert_eq!(g.cells[1][0].ch, 'd');
    assert_eq!(g.cells[1][1], TerminalCell::default());
    assert_eq!(g.cells[1][2], TerminalCell::default());
    // row 2 fully cleared
    for x in 0..4 {
        assert_eq!(g.cells[2][x], TerminalCell::default());
    }
}

#[test]
fn erase_display_mode_one_clears_above() {
    let (mut it, mut g) = setup(4, 3);
    feed(&mut it, &mut g, "abc\r\ndef\r\nghi");
    feed(&mut it, &mut g, "\x1b[2;2H\x1b[1J");
    // row 0 fully cleared
    for x in 0..4 {
        assert_eq!(g.cells[0][x], TerminalCell::default());
    }
    // row 1: cleared through the cursor, 'f' kept
    assert_eq!(g.cells[1][0], TerminalCell::default());
    assert_eq!(g.cells[1][1], TerminalCell::default());
    assert_eq!(g.cells[1][2].ch, 'f');
    // row 2 untouched
    assert_eq!(g.cells[2][0].ch, 'g');
}

#[test]
fn sgr_palette_and_styles() {
    let (mut it, mut g) = setup(40, 2);
    feed(&mut it, &mut g, "\x1b[30ma\x1b[34mb\x1b[37mc\x1b[90md\x1b[97me");
    assert_eq!(g.cells[0][0].fg, Color::Black);
    assert_eq!(g.cells[0][1].fg, Color::Blue);
    assert_eq!(g.cells[0][2].fg, Color::White);
    assert_eq!(g.cells[0][3].fg, Color::BrightBlack);
    assert_eq!(g.cells[0][4].fg, Color::BrightWhite);
    feed(&mut it, &mut g, "\x1b[41mf\x1b[47mg\x1b[49mh");
    assert_eq!(g.cells[0][5].bg, Color::Red);
    assert_eq!(g.cells[0][6].bg, Color::White);
    assert_eq!(g.cells[0][7].bg, Color::Default);
    feed(&mut it, &mut g, "\x1b[1mi\x1b[22mj\x1b[39mk");
    assert!(g.cells[0][8].bold);
    assert!(!g.cells[0][9].bold);
    assert_eq!(g.cells[0][10].fg, Color::Default);
}

#[test]
fn sgr_multiple_parameters_in_one_sequence() {
    let (mut it, mut g) = setup(10, 2);
    feed(&mut it, &mut g, "\x1b[1;32;41mZ");
    let c = g.cells[0][0];
    assert!(c.bold);
    assert_eq!(c.fg, Color::Green);
    assert_eq!(c.bg, Color::Red);
}

#[test]
fn sgr_without_parameters_resets() {
    let (mut it, mut g) = setup(10, 2);
    feed(&mut it, &mut g, "\x1b[1;31mA\x1b[mB");
    assert_eq!(g.cells[0][0].fg, Color::Red);
    assert!(g.cells[0][0].bold);
    assert_eq!(g.cells[0][1].fg, Color::Default);
    assert!(!g.cells[0][1].bold);
}

#[test]
fn sgr_unknown_parameter_is_ignored() {
    let (mut it, mut g) = setup(10, 2);
    feed(&mut it, &mut g, "\x1b[31m\x1b[123mA");
    assert_eq!(g.cells[0][0].fg, Color::Red);
}

#[test]
fn osc_zero_sets_title_on_bel() {
    let (mut it, mut g) = setup(10, 2);
    assert_eq!(g.title, "Terminal");
    feed(&mut it, &mut g, "\x1b]0;hello\x07");
    assert_eq!(g.title, "hello");
}

#[test]
fn osc_two_sets_title_on_st() {
    let (mut it, mut g) = setup(10, 2);
    feed(&mut it, &mut g, "\x1b]2;build log\x1b\\");
    assert_eq!(g.title, "build log");
}

#[test]
fn osc_other_payloads_are_ignored() {
    let (mut it, mut g) = setup(10, 2);
    feed(&mut it, &mut g, "\x1b]1;nope\x07");
    assert_eq!(g.title, "Terminal");
    feed(&mut it, &mut g, "\x1b]0\x07");
    assert_eq!(g.title, "Terminal");
}

#[test]
fn osc_title_keeps_later_semicolons() {
    let (mut it, mut g) = setup(10, 2);
    feed(&mut it, &mut g, "\x1b]0;a;b\x07");
    assert_eq!(g.title, "a;b");
}

#[test]
fn osc_interrupted_by_csi_still_dispatches() {
    let (mut it, mut g) = setup(10, 2);
    feed(&mut it, &mut g, "\x1b]0;zz\x1b[31mQ");
    assert_eq!(g.title, "zz");
    assert_eq!(g.cells[0][0].ch, 'Q');
    assert_eq!(g.cells[0][0].fg, Color::Red);
}

#[test]
fn csi_abandoned_by_escape_restarts() {
    // a CSI interrupted by a fresh ESC drops its parameters
    let (mut it, mut g) = setup(10, 2);
    feed(&mut it, &mut g, "\x1b[31\x1b[32mA");
    assert_eq!(g.cells[0][0].ch, 'A');
    assert_eq!(g.cells[0][0].fg, Color::Green);
}

#[test]
fn private_mode_sequence_is_ignored() {
    // the '?' marker and the unknown final byte pass through harmlessly
    let (mut it, mut g) = setup(10, 2);
    feed(&mut it, &mut g, "\x1b[?25hA");
    assert_eq!(g.cells[0][0].ch, 'A');
    assert_eq!(g.cells[0][0].fg, Color::Default);
    assert_eq!((g.cursor.x, g.cursor.y), (1, 0));
}

#[test]
fn plain_escape_discards_one_byte() {
    let (mut it, mut g) = setup(10, 2);
    feed(&mut it, &mut g, "\x1bAB");
    // 'A' is consumed by the escape, 'B' prints at the origin.
    assert_eq!(g.cells[0][0].ch, 'B');
    assert_eq!(g.cells[0][1], TerminalCell::default());
}

#[test]
fn stray_control_bytes_are_ignored() {
    let (mut it, mut g) = setup(10, 2);
    feed(&mut it, &mut g, "\x01\x02\x7fA");
    assert_eq!(g.cells[0][0].ch, 'A');
    assert_eq!((g.cursor.x, g.cursor.y), (1, 0));
}

#[test]
fn osc_interrupted_by_new_osc_dispatches_both() {
    let (mut it, mut g) = setup(10, 2);
    feed(&mut it, &mut g, "\x1b]0;a\x1b]0;b\x07");
    assert_eq!(g.title, "b");
}

#[test]
fn tab_from_mid_column() {
    let (mut it, mut g) = setup(20, 2);
    feed(&mut it, &mut g, "abc\t");
    assert_eq!(g.cursor.x, 8);
}

#[test]
fn cursor_stays_in_bounds_under_arbitrary_bytes() {
    // a pile of printable bytes, controls and malformed sequences on a
    // tiny grid: the cursor must stay strictly inside the bounds.
    let (mut it, mut g) = setup(3, 2);
    let mut bytes: Vec<u8> = Vec::new();
    for i in 0..1000u32 {
        bytes.push((i * 37 % 256) as u8);
    }
    it.advance_bytes(&mut g, &bytes);
    assert!(g.cursor.x < 3);
    assert!(g.cursor.y < 2);
    feed(&mut it, &mut g, "\x1b[99;99H\x1b[99B\x1b[99C");
    assert!(g.cursor.x < 3);
    assert!(g.cursor.y < 2);
}
