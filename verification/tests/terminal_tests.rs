use rt::terminal::{Color, Terminal, TerminalCell};
use std::time::{Duration, Instant};

#[test]
fn test_terminal_creation() {
    let terminal = Terminal::new();
    assert_eq!(terminal.get_dimensions(), (80, 24));
    assert_eq!(terminal.get_cursor_position(), (0, 0));
    assert!(terminal.get_memory_usage() > 0);
}

#[test]
fn test_terminal_with_custom_size() {
    let terminal = Terminal::with_size(120, 30);
    assert_eq!(terminal.get_dimensions(), (120, 30));
    assert_eq!(terminal.get_buffer().len(), 30);
    assert_eq!(terminal.get_buffer()[0].len(), 120);
}

#[test]
fn test_write_single_char() {
    let mut terminal = Terminal::new();
    terminal.write_char('A');

    assert_eq!(terminal.get_cursor_position(), (1, 0));
    assert_eq!(terminal.get_cell_at(0, 0).unwrap().character, 'A');
}

#[test]
fn test_write_text() {
    let mut terminal = Terminal::new();
    terminal.write_text("Hello");

    assert_eq!(terminal.get_cursor_position(), (5, 0));
    assert_eq!(terminal.get_cell_at(0, 0).unwrap().character, 'H');
    assert_eq!(terminal.get_cell_at(4, 0).unwrap().character, 'o');
}

#[test]
fn test_newline_handling() {
    let mut terminal = Terminal::new();
    terminal.write_text("Line1\nLine2");

    assert_eq!(terminal.get_cursor_position(), (5, 1));
    assert_eq!(terminal.get_cell_at(0, 0).unwrap().character, 'L');
    assert_eq!(terminal.get_cell_at(0, 1).unwrap().character, 'L');
}

#[test]
fn test_carriage_return() {
    let mut terminal = Terminal::new();
    terminal.write_text("Hello\rWorld");

    assert_eq!(terminal.get_cursor_position(), (5, 0));
    assert_eq!(terminal.get_cell_at(0, 0).unwrap().character, 'W');
    assert_eq!(terminal.get_cell_at(4, 0).unwrap().character, 'd');
}

#[test]
fn test_tab_handling() {
    let mut terminal = Terminal::new();
    terminal.write_text("A\tB");

    assert_eq!(terminal.get_cursor_position(), (9, 0));
    assert_eq!(terminal.get_cell_at(0, 0).unwrap().character, 'A');
    assert_eq!(terminal.get_cell_at(8, 0).unwrap().character, 'B');
}

#[test]
fn test_backspace() {
    let mut terminal = Terminal::new();
    terminal.write_text("ABC");
    terminal.write_char('\x08');

    assert_eq!(terminal.get_cursor_position(), (2, 0));
    assert_eq!(terminal.get_cell_at(2, 0).unwrap().character, ' ');
}

#[test]
fn test_line_wrapping() {
    let mut terminal = Terminal::with_size(5, 5);
    terminal.write_text("HelloWorld");

    assert_eq!(terminal.get_cursor_position(), (0, 2));
    assert_eq!(terminal.get_cell_at(4, 0).unwrap().character, 'o');
    assert_eq!(terminal.get_cell_at(0, 1).unwrap().character, 'W');
}

#[test]
fn test_scroll_up() {
    let mut terminal = Terminal::with_size(10, 3);

    terminal.write_text("Line1\nLine2\nLine3\nLine4");

    assert!(terminal.get_history_size() > 0);

    let (cursor_x, cursor_y) = terminal.get_cursor_position();
    assert_eq!(cursor_y, 2);
    assert_eq!(cursor_x, 5);
}

#[test]
fn test_color_assignment() {
    let mut terminal = Terminal::new();
    terminal.write_char('=');
    terminal.write_char('5');
    terminal.write_char('A');

    let operator_cell = terminal.get_cell_at(0, 0).unwrap();
    let number_cell = terminal.get_cell_at(1, 0).unwrap();
    let letter_cell = terminal.get_cell_at(2, 0).unwrap();

    assert_eq!(operator_cell.foreground_color, Color(100, 200, 255, 255));
    assert_eq!(number_cell.foreground_color, Color(255, 200, 100, 255));
    assert_eq!(letter_cell.foreground_color, Color(200, 255, 200, 255));
}

#[test]
fn test_clear() {
    let mut terminal = Terminal::new();
    terminal.write_text("Hello World");
    terminal.clear();

    assert_eq!(terminal.get_cursor_position(), (0, 0));
    assert_eq!(terminal.get_cell_at(0, 0).unwrap().character, ' ');
}

#[test]
fn test_resize_larger() {
    let mut terminal = Terminal::with_size(5, 3);
    terminal.write_text("Hello");
    terminal.resize(10, 5);

    assert_eq!(terminal.get_dimensions(), (10, 5));
    assert_eq!(terminal.get_cell_at(0, 0).unwrap().character, 'H');
    assert_eq!(terminal.get_buffer().len(), 5);
    assert_eq!(terminal.get_buffer()[0].len(), 10);
}

#[test]
fn test_resize_smaller() {
    let mut terminal = Terminal::with_size(10, 5);
    terminal.write_text("Hello World");
    terminal.resize(5, 3);

    assert_eq!(terminal.get_dimensions(), (5, 3));
    assert_eq!(terminal.get_buffer().len(), 3);
    assert_eq!(terminal.get_buffer()[0].len(), 5);
}

#[test]
fn test_cursor_position_after_resize() {
    let mut terminal = Terminal::with_size(10, 5);
    terminal.move_cursor_to(8, 4);
    assert_eq!(terminal.get_cursor_position(), (8, 4));
    terminal.resize(5, 3);

    let (x, y) = terminal.get_cursor_position();
    assert!(x < 5);
    assert!(y < 3);
}

#[test]
fn test_memory_usage_calculation() {
    let terminal = Terminal::with_size(80, 24);
    let memory_usage = terminal.get_memory_usage();

    assert!(memory_usage > 0);

    let expected_min = std::mem::size_of::<TerminalCell>() * 80 * 24;
    assert!(memory_usage >= expected_min);
}

#[test]
fn test_set_cell_at() {
    let mut terminal = Terminal::new();
    let custom_cell = TerminalCell {
        character: 'X',
        foreground_color: Color(255, 0, 0, 255),
        ..Default::default()
    };

    assert!(terminal.set_cell_at(5, 5, custom_cell.clone()));
    assert_eq!(terminal.get_cell_at(5, 5).unwrap(), &custom_cell);
}

#[test]
fn test_set_cell_at_out_of_bounds() {
    let mut terminal = Terminal::with_size(10, 10);
    let custom_cell = TerminalCell::default();

    assert!(!terminal.set_cell_at(15, 15, custom_cell));
}

#[test]
fn test_history_management() {
    let mut terminal = Terminal::with_size(5, 2);

    terminal.write_text("Line1\nLine2\nLine3");

    assert!(terminal.get_history_size() > 0);
    assert!(terminal.get_line_from_history(0).is_some());
}

#[test]
fn test_sample_data_creation() {
    let terminal = Terminal::with_sample_data();

    assert_ne!(terminal.get_cell_at(0, 0).unwrap().character, ' ');
    assert!(terminal.get_memory_usage() > 0);
}

#[test]
fn test_large_buffer_performance() {
    let start = Instant::now();
    let terminal = Terminal::with_size(200, 100);
    let creation_time = start.elapsed();

    assert!(creation_time < Duration::from_millis(100));
    assert_eq!(terminal.get_dimensions(), (200, 100));
}

#[test]
fn test_extensive_text_writing() {
    let mut terminal = Terminal::with_size(80, 24);
    let long_text = "A".repeat(10000);

    let start = Instant::now();
    terminal.write_text(&long_text);
    let write_time = start.elapsed();

    assert!(write_time < Duration::from_millis(500));
    assert!(terminal.get_history_size() > 0);
}
