use rt::event::{Event, Param};
use rt::screen::ClearMode;
use rt::terminal::{Attributes, Color, Cursor, CursorShape, Modes, Terminal, TerminalCell};
use rt::tokenizer::Tokenizer;

fn feed(terminal: &mut Terminal, bytes: &[u8]) {
    let mut tokenizer = Tokenizer::new();
    terminal.process(&mut tokenizer, bytes);
}

fn row_text(terminal: &Terminal, y: usize) -> String {
    terminal.get_buffer()[y].iter().map(|c| c.character).collect::<String>().trim_end().to_string()
}

fn p(value: u16) -> Param {
    Param { value, sub: false }
}

#[test]
fn test_fresh_terminal_has_blank_grid_of_its_size() {
    for (w, h) in [(1usize, 1usize), (1, 7), (9, 1), (13, 5), (80, 24)] {
        let terminal = Terminal::with_size(w, h);
        assert_eq!(terminal.get_buffer().len(), h);
        for row in terminal.get_buffer() {
            assert_eq!(row.len(), w);
            for cell in row {
                assert_eq!(*cell, TerminalCell::default());
            }
        }
        assert_eq!(terminal.get_cursor_position(), (0, 0));
        assert_eq!(terminal.get_scroll_region(), (0, h - 1));
        assert_eq!(terminal.get_history_size(), 0);
    }
}

#[test]
fn test_default_values() {
    let cell = TerminalCell::default();
    assert_eq!(cell.character, ' ');
    assert_eq!(cell.foreground_color, Color(255, 255, 255, 255));
    assert_eq!(cell.background_color, Color(0, 0, 0, 255));
    assert!(!cell.bold && !cell.italic && !cell.underline && !cell.strikethrough);
    assert!(!cell.reverse && !cell.blink && !cell.dim);
    assert_eq!(Color::default(), Color::white());
    assert_eq!(Color::black(), Color(0, 0, 0, 255));
    assert_eq!(
        Cursor::default(),
        Cursor { x: 0, y: 0, visible: true, shape: CursorShape::Block }
    );
    let modes = Modes::default();
    assert!(modes.wraparound && modes.auto_repeat);
    assert!(!modes.origin_mode && !modes.insert_mode && !modes.newline_mode);
    assert!(!modes.application_cursor);
}

#[test]
fn test_palette_values() {
    assert_eq!(Color::from_ansi_color(0), Color(0, 0, 0, 255));
    assert_eq!(Color::from_ansi_color(1), Color(205, 0, 0, 255));
    assert_eq!(Color::from_ansi_color(4), Color(0, 0, 238, 255));
    assert_eq!(Color::from_ansi_color(7), Color(229, 229, 229, 255));
    assert_eq!(Color::from_ansi_color(9), Color(255, 0, 0, 255));
    assert_eq!(Color::from_ansi_color(15), Color(255, 255, 255, 255));
    assert_eq!(Color::from_ansi_color(16), Color(0, 0, 0, 255));
    assert_eq!(Color::from_ansi_color(17), Color(0, 0, 95, 255));
    assert_eq!(Color::from_ansi_color(196), Color(255, 0, 0, 255));
    assert_eq!(Color::from_ansi_color(110), Color(135, 175, 215, 255));
    assert_eq!(Color::from_ansi_color(231), Color(255, 255, 255, 255));
    assert_eq!(Color::from_ansi_color(232), Color(8, 8, 8, 255));
    assert_eq!(Color::from_ansi_color(255), Color(238, 238, 238, 255));
}

#[test]
fn test_print_advances_by_display_width() {
    let mut terminal = Terminal::with_size(10, 3);
    terminal.print('a');
    assert_eq!(terminal.get_cursor_position(), (1, 0));
    terminal.print('\u{4e16}');
    assert_eq!(terminal.get_cursor_position(), (3, 0));
    assert_eq!(terminal.get_cell_at(1, 0).unwrap().character, '\u{4e16}');
    terminal.print('\u{0301}');
    assert_eq!(terminal.get_cursor_position(), (3, 0));
    assert_eq!(terminal.get_cell_at(3, 0).unwrap().character, ' ');
    terminal.print('\0');
    assert_eq!(terminal.get_cursor_position(), (3, 0));
    terminal.print('\u{7f}');
    assert_eq!(terminal.get_cursor_position(), (4, 0));
}

#[test]
fn test_print_wraps_at_end_of_row() {
    let mut terminal = Terminal::with_size(3, 2);
    feed(&mut terminal, b"abc");
    assert_eq!(terminal.get_cursor_position(), (0, 1));
    feed(&mut terminal, b"def");
    assert_eq!(terminal.get_cursor_position(), (0, 1));
    assert_eq!(terminal.get_history_size(), 1);
    assert_eq!(row_text(&terminal, 0), "def");
    assert_eq!(row_text(&terminal, 1), "");
    let oldest: String =
        terminal.get_line_from_history(0).unwrap().iter().map(|c| c.character).collect();
    assert_eq!(oldest, "abc");
}

#[test]
fn test_print_without_wraparound_stays_on_last_column() {
    let mut terminal = Terminal::with_size(3, 2);
    feed(&mut terminal, b"\x1b[?7labcde");
    assert!(!terminal.get_modes().wraparound);
    assert_eq!(terminal.get_cursor_position(), (2, 0));
    assert_eq!(row_text(&terminal, 0), "abe");
    assert_eq!(row_text(&terminal, 1), "");
}

#[test]
fn test_wide_character_that_does_not_fit_moves_first() {
    let mut terminal = Terminal::with_size(3, 3);
    feed(&mut terminal, "ab\u{4e16}".as_bytes());
    assert_eq!(terminal.get_cell_at(2, 0).unwrap().character, ' ');
    assert_eq!(terminal.get_cell_at(0, 1).unwrap().character, '\u{4e16}');
    assert_eq!(terminal.get_cursor_position(), (2, 1));
    let mut plain = Terminal::with_size(3, 3);
    plain.print_with_width('x', 1);
    plain.print_with_width('y', 1);
    plain.print_with_width('W', 3);
    assert_eq!(plain.get_cell_at(0, 1).unwrap().character, 'W');
    assert_eq!(plain.get_cursor_position(), (0, 2));
}

#[test]
fn test_newline_as_text_and_line_feed_as_control() {
    let mut terminal = Terminal::with_size(10, 3);
    terminal.write_text("ab\n");
    assert_eq!(terminal.get_cursor_position(), (0, 1));
    feed(&mut terminal, b"cd\n");
    assert_eq!(terminal.get_cursor_position(), (2, 2));
    feed(&mut terminal, b"\x1b[20h\n");
    assert_eq!(terminal.get_cursor_position(), (0, 2));
    assert_eq!(terminal.get_history_size(), 1);
    assert!(terminal.get_modes().newline_mode);
}

#[test]
fn test_newline_at_bottom_scrolls_and_grows_history() {
    let mut terminal = Terminal::with_size(4, 2);
    terminal.write_text("a\nb");
    assert_eq!(terminal.get_history_size(), 0);
    terminal.write_char('\n');
    assert_eq!(terminal.get_cursor_position(), (0, 1));
    assert_eq!(terminal.get_history_size(), 1);
    assert_eq!(terminal.get_line_from_history(0).unwrap()[0].character, 'a');
    assert_eq!(row_text(&terminal, 0), "b");
    assert_eq!(row_text(&terminal, 1), "");
}

#[test]
fn test_resize_larger_preserves_origin_cell() {
    let mut terminal = Terminal::with_size(4, 3);
    feed(&mut terminal, b"\x1b[32mQ");
    let before = *terminal.get_cell_at(0, 0).unwrap();
    terminal.resize(9, 7);
    assert_eq!(*terminal.get_cell_at(0, 0).unwrap(), before);
    assert_eq!(*terminal.get_cell_at(8, 6).unwrap(), TerminalCell::default());
    assert_eq!(terminal.get_scroll_region(), (0, 6));
}

#[test]
fn test_resize_smaller_cuts_and_clamps() {
    let mut terminal = Terminal::with_size(6, 4);
    terminal.write_text("abcdef");
    terminal.move_cursor_to(5, 3);
    terminal.save_cursor();
    terminal.resize(3, 2);
    assert_eq!(row_text(&terminal, 0), "abc");
    assert_eq!(terminal.get_cursor_position(), (2, 1));
    terminal.move_cursor_to(0, 0);
    terminal.restore_cursor();
    assert_eq!(terminal.get_cursor_position(), (2, 1));
    terminal.resize(3, 0);
    terminal.resize(0, 3);
    assert_eq!(terminal.get_dimensions(), (3, 2));
}

#[test]
fn test_resize_rebuilds_tab_stops() {
    let mut terminal = Terminal::with_size(20, 2);
    feed(&mut terminal, b"\x1b[3g");
    terminal.resize(30, 2);
    feed(&mut terminal, b"\t");
    assert_eq!(terminal.get_cursor_position(), (8, 0));
    feed(&mut terminal, b"\t\t\t");
    assert_eq!(terminal.get_cursor_position(), (29, 0));
}

#[test]
fn test_cursor_position_sequence() {
    let mut terminal = Terminal::with_size(80, 24);
    feed(&mut terminal, b"\x1b[5;10H");
    assert_eq!(terminal.get_cursor_position(), (9, 4));
    feed(&mut terminal, b"\x1b[H");
    assert_eq!(terminal.get_cursor_position(), (0, 0));
    feed(&mut terminal, b"\x1b[999;999H");
    assert_eq!(terminal.get_cursor_position(), (79, 23));
    feed(&mut terminal, b"\x1b[3;7f");
    assert_eq!(terminal.get_cursor_position(), (6, 2));
    feed(&mut terminal, b"\x1b[;4H");
    assert_eq!(terminal.get_cursor_position(), (3, 0));
    feed(&mut terminal, b"\x1b[0;0H");
    assert_eq!(terminal.get_cursor_position(), (0, 0));
}

#[test]
fn test_clear_home_and_write() {
    let mut terminal = Terminal::with_size(12, 4);
    terminal.write_text("some\nold\ncontent");
    feed(&mut terminal, b"\x1b[2J\x1b[HHI");
    for y in 0..4 {
        for x in 0..12 {
            let cell = *terminal.get_cell_at(x, y).unwrap();
            let expected = match (x, y) {
                (0, 0) => TerminalCell { character: 'H', ..Default::default() },
                (1, 0) => TerminalCell { character: 'I', ..Default::default() },
                _ => TerminalCell::default(),
            };
            assert_eq!(cell, expected);
        }
    }
    assert_eq!(terminal.get_cursor_position(), (2, 0));
}

#[test]
fn test_red_text_then_reset() {
    let mut terminal = Terminal::with_size(80, 24);
    feed(&mut terminal, b"\x1b[31mHI\x1b[0m");
    let red = Color::from_ansi_color(1);
    assert_eq!(red, Color(205, 0, 0, 255));
    assert_eq!(terminal.get_cell_at(0, 0).unwrap().character, 'H');
    assert_eq!(terminal.get_cell_at(0, 0).unwrap().foreground_color, red);
    assert_eq!(terminal.get_cell_at(1, 0).unwrap().character, 'I');
    assert_eq!(terminal.get_cell_at(1, 0).unwrap().foreground_color, red);
    assert_eq!(
        terminal.get_pen(),
        (Color(255, 255, 255, 255), Color(0, 0, 0, 255), Attributes::default())
    );
}

#[test]
fn test_set_margins_sequence() {
    let mut terminal = Terminal::with_size(80, 24);
    feed(&mut terminal, b"\x1b[10;10H\x1b[2;5r");
    assert_eq!(terminal.get_scroll_region(), (1, 4));
    assert_eq!(terminal.get_cursor_position(), (0, 0));
    let mut origin = Terminal::with_size(80, 24);
    feed(&mut origin, b"\x1b[?6h\x1b[10;10H\x1b[2;5r");
    assert!(origin.get_modes().origin_mode);
    assert_eq!(origin.get_scroll_region(), (1, 4));
    assert_eq!(origin.get_cursor_position(), (0, 1));
}

#[test]
fn test_invalid_margins_give_whole_screen() {
    let mut terminal = Terminal::with_size(10, 6);
    feed(&mut terminal, b"\x1b[2;4r\x1b[5;3r");
    assert_eq!(terminal.get_scroll_region(), (0, 5));
    feed(&mut terminal, b"\x1b[2;4r\x1b[3;3r");
    assert_eq!(terminal.get_scroll_region(), (0, 5));
    feed(&mut terminal, b"\x1b[2;4r\x1b[r");
    assert_eq!(terminal.get_scroll_region(), (0, 5));
    feed(&mut terminal, b"\x1b[3r");
    assert_eq!(terminal.get_scroll_region(), (2, 5));
    feed(&mut terminal, b"\x1b[2;99r");
    assert_eq!(terminal.get_scroll_region(), (1, 5));
}

#[test]
fn test_origin_mode_positions_inside_region() {
    let mut terminal = Terminal::with_size(10, 10);
    feed(&mut terminal, b"\x1b[?6h\x1b[3;6r\x1b[2;4H");
    assert_eq!(terminal.get_cursor_position(), (3, 3));
    feed(&mut terminal, b"\x1b[9;1H");
    assert_eq!(terminal.get_cursor_position(), (0, 5));
    feed(&mut terminal, b"\x1b[9A");
    assert_eq!(terminal.get_cursor_position(), (0, 2));
    feed(&mut terminal, b"\x1b[9B");
    assert_eq!(terminal.get_cursor_position(), (0, 5));
}

#[test]
fn test_cursor_motion_sequences() {
    let mut terminal = Terminal::with_size(20, 10);
    feed(&mut terminal, b"\x1b[5;5H\x1b[A");
    assert_eq!(terminal.get_cursor_position(), (4, 3));
    feed(&mut terminal, b"\x1b[2B");
    assert_eq!(terminal.get_cursor_position(), (4, 5));
    feed(&mut terminal, b"\x1b[3C");
    assert_eq!(terminal.get_cursor_position(), (7, 5));
    feed(&mut terminal, b"\x1b[D");
    assert_eq!(terminal.get_cursor_position(), (6, 5));
    feed(&mut terminal, b"\x1b[E");
    assert_eq!(terminal.get_cursor_position(), (0, 6));
    feed(&mut terminal, b"\x1b[4C\x1b[2F");
    assert_eq!(terminal.get_cursor_position(), (0, 4));
    feed(&mut terminal, b"\x1b[12G");
    assert_eq!(terminal.get_cursor_position(), (11, 4));
    feed(&mut terminal, b"\x1b[3d");
    assert_eq!(terminal.get_cursor_position(), (11, 2));
    feed(&mut terminal, b"\x1b[99A\x1b[99D");
    assert_eq!(terminal.get_cursor_position(), (0, 0));
    feed(&mut terminal, b"\x1b[99B\x1b[99C");
    assert_eq!(terminal.get_cursor_position(), (19, 9));
    feed(&mut terminal, b"\x1b[0A\x1b[0D");
    assert_eq!(terminal.get_cursor_position(), (19, 9));
}

#[test]
fn test_erase_in_display_modes() {
    let fill = |terminal: &mut Terminal| {
        terminal.write_text("aaaa\nbbbb\ncccc");
        terminal.move_cursor_to(1, 1);
    };
    let mut t0 = Terminal::with_size(5, 3);
    fill(&mut t0);
    feed(&mut t0, b"\x1b[J");
    assert_eq!((row_text(&t0, 0), row_text(&t0, 1), row_text(&t0, 2)), ("aaaa".into(), "b".into(), "".into()));
    let mut t1 = Terminal::with_size(5, 3);
    fill(&mut t1);
    feed(&mut t1, b"\x1b[1J");
    assert_eq!(row_text(&t1, 0), "");
    assert_eq!(t1.get_cell_at(1, 1).unwrap().character, ' ');
    assert_eq!(t1.get_cell_at(2, 1).unwrap().character, 'b');
    assert_eq!(row_text(&t1, 2), "cccc");
    let mut t2 = Terminal::with_size(5, 3);
    fill(&mut t2);
    feed(&mut t2, b"\x1b[2J");
    assert_eq!((row_text(&t2, 0), row_text(&t2, 1), row_text(&t2, 2)), ("".into(), "".into(), "".into()));
    assert_eq!(t2.get_cursor_position(), (1, 1));
    let mut t3 = Terminal::with_size(5, 3);
    fill(&mut t3);
    feed(&mut t3, b"\x1b[3J");
    assert_eq!(row_text(&t3, 1), "");
    let mut t4 = Terminal::with_size(5, 3);
    fill(&mut t4);
    feed(&mut t4, b"\x1b[7J");
    assert_eq!(row_text(&t4, 1), "bbbb");
}

#[test]
fn test_erase_in_line_modes() {
    let mut terminal = Terminal::with_size(6, 2);
    terminal.write_text("abcdef");
    terminal.move_cursor_to(2, 0);
    feed(&mut terminal, b"\x1b[K");
    assert_eq!(row_text(&terminal, 0), "ab");
    let mut t1 = Terminal::with_size(6, 2);
    t1.write_text("abcde");
    t1.move_cursor_to(2, 0);
    feed(&mut t1, b"\x1b[1K");
    assert_eq!(row_text(&t1, 0), "   de");
    feed(&mut t1, b"\x1b[2K");
    assert_eq!(row_text(&t1, 0), "");
    let mut direct = Terminal::with_size(4, 2);
    direct.write_text("wxyz");
    direct.move_cursor_to(1, 0);
    direct.clear_region(ClearMode::LineToEnd);
    assert_eq!(row_text(&direct, 0), "w");
}

#[test]
fn test_insert_and_delete_lines() {
    let mut terminal = Terminal::with_size(3, 5);
    terminal.write_text("a\nb\nc\nd\ne");
    feed(&mut terminal, b"\x1b[2;4r\x1b[3;1H\x1b[L");
    let rows: Vec<String> = (0..5).map(|y| row_text(&terminal, y)).collect();
    assert_eq!(rows, vec!["a", "b", "", "c", "e"]);
    feed(&mut terminal, b"\x1b[2;1H\x1b[2M");
    let rows: Vec<String> = (0..5).map(|y| row_text(&terminal, y)).collect();
    assert_eq!(rows, vec!["a", "c", "", "", "e"]);
    assert_eq!(terminal.get_history_size(), 0);
    feed(&mut terminal, b"\x1b[5;1H\x1b[L\x1b[M");
    let rows: Vec<String> = (0..5).map(|y| row_text(&terminal, y)).collect();
    assert_eq!(rows, vec!["a", "c", "", "", "e"]);
}

#[test]
fn test_scroll_sequences_in_region_keep_history_empty() {
    let mut terminal = Terminal::with_size(3, 4);
    terminal.write_text("a\nb\nc\nd");
    feed(&mut terminal, b"\x1b[2;3r\x1b[S");
    let rows: Vec<String> = (0..4).map(|y| row_text(&terminal, y)).collect();
    assert_eq!(rows, vec!["a", "c", "", "d"]);
    assert_eq!(terminal.get_history_size(), 0);
    feed(&mut terminal, b"\x1b[T");
    let rows: Vec<String> = (0..4).map(|y| row_text(&terminal, y)).collect();
    assert_eq!(rows, vec!["a", "", "c", "d"]);
    feed(&mut terminal, b"\x1b[9T");
    let rows: Vec<String> = (0..4).map(|y| row_text(&terminal, y)).collect();
    assert_eq!(rows, vec!["a", "", "", "d"]);
}

#[test]
fn test_full_screen_scroll_sequence_fills_history() {
    let mut terminal = Terminal::with_size(3, 3);
    terminal.write_text("a\nb\nc");
    feed(&mut terminal, b"\x1b[2S");
    assert_eq!(terminal.get_history_size(), 2);
    assert_eq!(terminal.get_line_from_history(0).unwrap()[0].character, 'a');
    assert_eq!(terminal.get_line_from_history(1).unwrap()[0].character, 'b');
    assert!(terminal.get_line_from_history(2).is_none());
    assert_eq!(row_text(&terminal, 0), "c");
    feed(&mut terminal, b"\x1b[99S");
    assert_eq!(terminal.get_history_size(), 5);
    assert_eq!(row_text(&terminal, 0), "");
}

#[test]
fn test_delete_and_erase_characters() {
    let mut terminal = Terminal::with_size(6, 1);
    terminal.write_text("abcde");
    terminal.move_cursor_to(1, 0);
    feed(&mut terminal, b"\x1b[2P");
    assert_eq!(row_text(&terminal, 0), "ade");
    feed(&mut terminal, b"\x1b[X");
    assert_eq!(row_text(&terminal, 0), "a e");
    feed(&mut terminal, b"\x1b[99X");
    assert_eq!(row_text(&terminal, 0), "a");
    feed(&mut terminal, b"\x1b[1G\x1b[99P");
    assert_eq!(row_text(&terminal, 0), "");
    assert_eq!(terminal.get_buffer()[0].len(), 6);
}

#[test]
fn test_tab_stops() {
    let mut terminal = Terminal::with_size(40, 2);
    feed(&mut terminal, b"\t");
    assert_eq!(terminal.get_cursor_position(), (8, 0));
    feed(&mut terminal, b"\x1b[2I");
    assert_eq!(terminal.get_cursor_position(), (24, 0));
    feed(&mut terminal, b"\x1b[Z");
    assert_eq!(terminal.get_cursor_position(), (16, 0));
    feed(&mut terminal, b"\x1b[9Z");
    assert_eq!(terminal.get_cursor_position(), (0, 0));
    feed(&mut terminal, b"\x1b[4G\x1bH\x1b[1G\t");
    assert_eq!(terminal.get_cursor_position(), (3, 0));
    feed(&mut terminal, b"\x1bH\x1b[g\x1b[1G\t");
    assert_eq!(terminal.get_cursor_position(), (8, 0));
    feed(&mut terminal, b"\x1b[3g\x1b[1G\t");
    assert_eq!(terminal.get_cursor_position(), (39, 0));
    feed(&mut terminal, b"\x1b[Z");
    assert_eq!(terminal.get_cursor_position(), (0, 0));
}

#[test]
fn test_backspace_and_carriage_return_controls() {
    let mut terminal = Terminal::with_size(10, 2);
    feed(&mut terminal, b"abc\x08\x08\x08\x08");
    assert_eq!(terminal.get_cursor_position(), (0, 0));
    assert_eq!(row_text(&terminal, 0), "abc");
    feed(&mut terminal, b"xy\rz\x07");
    assert_eq!(row_text(&terminal, 0), "zyc");
    assert_eq!(terminal.get_cursor_position(), (1, 0));
    feed(&mut terminal, b"\x0b\x0c");
    assert_eq!(terminal.get_cursor_position(), (1, 1));
    assert_eq!(terminal.get_history_size(), 1);
}

#[test]
fn test_rendition_flags_and_colours() {
    let mut terminal = Terminal::with_size(20, 2);
    feed(&mut terminal, b"\x1b[1;2;3;4;5;9;92;44mA");
    let cell = *terminal.get_cell_at(0, 0).unwrap();
    assert!(cell.bold && cell.dim && cell.italic && cell.underline && cell.blink);
    assert!(cell.strikethrough && !cell.reverse);
    assert_eq!(cell.foreground_color, Color::from_ansi_color(10));
    assert_eq!(cell.background_color, Color::from_ansi_color(4));
    feed(&mut terminal, b"\x1b[22;23;24;25;29;39;49mB");
    assert_eq!(*terminal.get_cell_at(1, 0).unwrap(), TerminalCell { character: 'B', ..Default::default() });
    feed(&mut terminal, b"\x1b[103;37mC\x1b[mD");
    let cell = *terminal.get_cell_at(2, 0).unwrap();
    assert_eq!(cell.foreground_color, Color::from_ansi_color(7));
    assert_eq!(cell.background_color, Color::from_ansi_color(11));
    assert_eq!(*terminal.get_cell_at(3, 0).unwrap(), TerminalCell { character: 'D', ..Default::default() });
}

#[test]
fn test_reverse_video_swaps_colours_at_write_time() {
    let mut terminal = Terminal::with_size(20, 2);
    feed(&mut terminal, b"\x1b[31;42;7mR\x1b[27mN");
    let swapped = *terminal.get_cell_at(0, 0).unwrap();
    assert_eq!(swapped.foreground_color, Color::from_ansi_color(2));
    assert_eq!(swapped.background_color, Color::from_ansi_color(1));
    assert!(!swapped.reverse);
    let normal = *terminal.get_cell_at(1, 0).unwrap();
    assert_eq!(normal.foreground_color, Color::from_ansi_color(1));
    assert_eq!(normal.background_color, Color::from_ansi_color(2));
}

#[test]
fn test_extended_colours_from_the_palette() {
    let mut terminal = Terminal::with_size(20, 2);
    feed(&mut terminal, b"\x1b[38;5;196mA\x1b[48;5;21mB\x1b[38;5;1;4mC");
    let a = *terminal.get_cell_at(0, 0).unwrap();
    assert_eq!(a.foreground_color, Color(255, 0, 0, 255));
    assert_eq!(a.background_color, Color(0, 0, 0, 255));
    assert!(!a.blink && !a.bold && !a.dim && !a.underline);
    let b = *terminal.get_cell_at(1, 0).unwrap();
    assert_eq!(b.foreground_color, Color(255, 0, 0, 255));
    assert_eq!(b.background_color, Color(0, 0, 255, 255));
    assert!(!b.blink);
    let c = *terminal.get_cell_at(2, 0).unwrap();
    assert_eq!(c.foreground_color, Color(205, 0, 0, 255));
    assert!(c.underline && !c.blink && !c.bold);
}

#[test]
fn test_extended_colours_from_components() {
    let mut terminal = Terminal::with_size(20, 2);
    feed(&mut terminal, b"\x1b[38;2;10;20;30mA\x1b[48;2;1;2;3;1mB");
    let a = *terminal.get_cell_at(0, 0).unwrap();
    assert_eq!(a.foreground_color, Color(10, 20, 30, 255));
    assert!(!a.dim && !a.bold);
    let b = *terminal.get_cell_at(1, 0).unwrap();
    assert_eq!(b.background_color, Color(1, 2, 3, 255));
    assert!(b.bold && !b.dim && !b.italic);
}

#[test]
fn test_extended_colours_written_with_colons() {
    let mut terminal = Terminal::with_size(20, 2);
    feed(&mut terminal, b"\x1b[38:5:46mA\x1b[38:2:7:8:9mB\x1b[48:2::70:80:90;3mC\x1b[38:5:1:2:3;9mD");
    assert_eq!(terminal.get_cell_at(0, 0).unwrap().foreground_color, Color(0, 255, 0, 255));
    assert_eq!(terminal.get_cell_at(1, 0).unwrap().foreground_color, Color(7, 8, 9, 255));
    let c = *terminal.get_cell_at(2, 0).unwrap();
    assert_eq!(c.background_color, Color(70, 80, 90, 255));
    assert!(c.italic && !c.dim);
    let d = *terminal.get_cell_at(3, 0).unwrap();
    assert_eq!(d.foreground_color, Color(7, 8, 9, 255));
    assert!(d.strikethrough && !d.bold && !d.dim);
}

#[test]
fn test_extended_colours_that_describe_no_colour() {
    let mut terminal = Terminal::with_size(20, 2);
    feed(&mut terminal, b"\x1b[31m\x1b[38;5;256mA\x1b[38;2;1;2;300mB\x1b[38;5mC\x1b[38;2;1;2mD\x1b[38;7mE");
    let red = Color(205, 0, 0, 255);
    for x in 0..4 {
        let cell = *terminal.get_cell_at(x, 0).unwrap();
        assert_eq!(cell.foreground_color, red);
        assert!(!cell.blink && !cell.dim && !cell.bold && !cell.reverse);
    }
    let e = *terminal.get_cell_at(4, 0).unwrap();
    assert_eq!(e.foreground_color, Color(0, 0, 0, 255));
    assert_eq!(e.background_color, red);
}

#[test]
fn test_extended_colour_parameters_alone_change_nothing() {
    let mut terminal = Terminal::with_size(20, 2);
    feed(&mut terminal, b"\x1b[38mA\x1b[48mB");
    assert_eq!(*terminal.get_cell_at(0, 0).unwrap(), TerminalCell { character: 'A', ..Default::default() });
    assert_eq!(*terminal.get_cell_at(1, 0).unwrap(), TerminalCell { character: 'B', ..Default::default() });
}

#[test]
fn test_mode_sequences() {
    let mut terminal = Terminal::with_size(20, 2);
    feed(&mut terminal, b"\x1b[4h\x1b[?1h\x1b[?8l\x1b[?7l");
    let modes = terminal.get_modes();
    assert!(modes.insert_mode && modes.application_cursor);
    assert!(!modes.auto_repeat && !modes.wraparound);
    feed(&mut terminal, b"\x1b[4l\x1b[?1;7;8h\x1b[?6;9999h");
    let modes = terminal.get_modes();
    assert!(!modes.insert_mode && modes.wraparound && modes.auto_repeat && modes.origin_mode);
    feed(&mut terminal, b"\x1b[6l\x1b[?4h\x1b[?20h");
    let modes = terminal.get_modes();
    assert!(modes.origin_mode && !modes.insert_mode && !modes.newline_mode);
}

#[test]
fn test_save_and_restore_cursor() {
    let mut terminal = Terminal::with_size(20, 10);
    feed(&mut terminal, b"\x1b[3;4H\x1b[s\x1b[8;9H\x1b[u");
    assert_eq!(terminal.get_cursor_position(), (3, 2));
    feed(&mut terminal, b"\x1b[5;6H\x1b7\x1b[H\x1b8");
    assert_eq!(terminal.get_cursor_position(), (5, 4));
}

#[test]
fn test_escape_sequences() {
    let mut terminal = Terminal::with_size(5, 3);
    terminal.write_text("a\nb\nc");
    feed(&mut terminal, b"\x1b[1;3H\x1bM");
    let rows: Vec<String> = (0..3).map(|y| row_text(&terminal, y)).collect();
    assert_eq!(rows, vec!["", "a", "b"]);
    assert_eq!(terminal.get_cursor_position(), (2, 0));
    feed(&mut terminal, b"\x1bD");
    assert_eq!(terminal.get_cursor_position(), (2, 1));
    feed(&mut terminal, b"\x1bE");
    assert_eq!(terminal.get_cursor_position(), (0, 2));
    feed(&mut terminal, b"\x1bE");
    assert_eq!(terminal.get_cursor_position(), (0, 2));
    assert_eq!(terminal.get_history_size(), 1);
    feed(&mut terminal, b"\x1b=");
    assert!(terminal.get_modes().application_cursor);
    feed(&mut terminal, b"\x1b>");
    assert!(!terminal.get_modes().application_cursor);
    feed(&mut terminal, b"\x1b(B\x1b#8");
    assert_eq!(terminal.get_cursor_position(), (0, 2));
}

#[test]
fn test_full_reset_keeps_size() {
    let mut terminal = Terminal::with_size(7, 4);
    terminal.write_text("a\nb\nc\nd\ne");
    feed(&mut terminal, b"\x1b[31;1m\x1b[2;3r\x1b[?6h\x1b]2;title\x07\x1b[3g");
    feed(&mut terminal, b"\x1bc");
    assert_eq!(terminal.get_dimensions(), (7, 4));
    assert_eq!(terminal.get_cursor_position(), (0, 0));
    assert_eq!(terminal.get_scroll_region(), (0, 3));
    assert_eq!(terminal.get_history_size(), 0);
    assert_eq!(terminal.get_title(), "");
    assert_eq!(terminal.get_modes(), Modes::default());
    assert_eq!(
        terminal.get_pen(),
        (Color(255, 255, 255, 255), Color(0, 0, 0, 255), Attributes::default())
    );
    for y in 0..4 {
        assert_eq!(row_text(&terminal, y), "");
    }
}

#[test]
fn test_operating_system_commands() {
    let mut terminal = Terminal::with_size(20, 2);
    feed(&mut terminal, b"\x1b]0;both\x07");
    assert_eq!((terminal.get_title().as_str(), terminal.get_icon_title().as_str()), ("both", "both"));
    feed(&mut terminal, b"\x1b]1;icon\x07");
    assert_eq!((terminal.get_title().as_str(), terminal.get_icon_title().as_str()), ("both", "icon"));
    feed(&mut terminal, b"\x1b]2;a;b \xc3\xa9\x1b\\");
    assert_eq!(terminal.get_title(), "a;b \u{e9}");
    feed(&mut terminal, b"\x1b]7;file:///home/user\x07");
    assert_eq!(terminal.get_working_directory(), "/home/user");
    feed(&mut terminal, b"\x1b]7;/plain\x07");
    assert_eq!(terminal.get_working_directory(), "/plain");
    feed(&mut terminal, b"\x1b]2\x07\x1b]9;x\x07\x1b]22;x\x07\x1b];x\x07");
    assert_eq!(terminal.get_title(), "a;b \u{e9}");
    feed(&mut terminal, b"\x1b]2;bad \xff!\x07");
    assert_eq!(terminal.get_title(), "bad \u{fffd}!");
    feed(&mut terminal, b"\x1b]2;\x07");
    assert_eq!(terminal.get_title(), "");
    assert_eq!(terminal.get_cursor_position(), (0, 0));
}

#[test]
fn test_ignored_and_unknown_sequences_change_nothing() {
    let mut terminal = Terminal::with_size(20, 5);
    feed(&mut terminal, b"\x1b[3;3Hx");
    let cursor = terminal.get_cursor();
    let params = vec![p(2)];
    terminal.csi_dispatch(&params, &Vec::new(), true, 'J');
    terminal.esc_dispatch(&Vec::new(), true, b'c');
    terminal.esc_dispatch(&vec![b'('], false, b'c');
    terminal.csi_dispatch(&params, &Vec::new(), false, 'y');
    terminal.csi_dispatch(&vec![p(6)], &Vec::new(), false, 'n');
    terminal.execute(0x07);
    terminal.execute(0x00);
    terminal.dispatch(&Event::Dcs {
        params: Vec::new(),
        intermediates: Vec::new(),
        ignore: false,
        action: 'q',
    });
    feed(&mut terminal, b"\x1bPq data \x1b\\\x1b_apc\x1b\\\x1b[1;2;3;4 \"!p\x1b[=5;6?J");
    assert_eq!(terminal.get_cursor(), cursor);
    assert_eq!(terminal.get_cell_at(2, 2).unwrap().character, 'x');
    assert_eq!(row_text(&terminal, 2), "  x");
}

#[test]
fn test_charset_controls() {
    let mut terminal = Terminal::with_size(5, 2);
    feed(&mut terminal, b"\x0ea\x0fb");
    assert_eq!(row_text(&terminal, 0), "ab");
}

#[test]
fn test_sub_parameters_count_as_one_group() {
    let mut terminal = Terminal::with_size(20, 10);
    let params = vec![p(4), Param { value: 9, sub: true }, p(6)];
    terminal.csi_dispatch(&params, &Vec::new(), false, 'H');
    assert_eq!(terminal.get_cursor_position(), (5, 3));
    feed(&mut terminal, b"\x1b[2:7;3H");
    assert_eq!(terminal.get_cursor_position(), (2, 1));
}

#[test]
fn test_width_of_wide_and_combining_characters_comes_from_the_tables() {
    let mut terminal = Terminal::with_size(10, 2);
    terminal.print('\u{ff21}');
    assert_eq!(terminal.get_cursor_position(), (2, 0));
    terminal.print('\u{200b}');
    assert_eq!(terminal.get_cursor_position(), (2, 0));
    terminal.print('\u{17d8}');
    assert_eq!(terminal.get_cursor_position(), (5, 0));
    assert_eq!(terminal.get_cell_at(2, 0).unwrap().character, '\u{17d8}');
}
