use rt::terminal::{Color, Terminal, TerminalCell};
use std::time::{Duration, Instant};

#[test]
fn test_terminal_renderer_integration() {
    let terminal = Terminal::with_sample_data();

    let buffer = terminal.get_buffer();
    assert!(!buffer.is_empty());
    assert_eq!(buffer.len(), 24);
    assert_eq!(buffer[0].len(), 80);

    let first_line: String = buffer[0].iter().map(|cell| cell.character).take(20).collect();

    assert!(first_line.contains("RT Terminal"));
}

#[test]
fn test_memory_management_under_load() {
    let mut terminal = Terminal::with_size(100, 50);
    let initial_memory = terminal.get_memory_usage();

    for i in 0..1000 {
        terminal.write_text(&format!("Line {} with some content\n", i));
    }

    let final_memory = terminal.get_memory_usage();

    assert!(final_memory < initial_memory * 10);

    assert!(terminal.get_history_size() > 0);
}

#[test]
fn test_color_rendering_consistency() {
    let mut terminal = Terminal::new();

    terminal.write_text("= 123 ABC !=");

    let equals_cell = terminal.get_cell_at(0, 0).unwrap();
    let exclamation_cell = terminal.get_cell_at(10, 0).unwrap();

    assert_eq!(equals_cell.foreground_color, Color(100, 200, 255, 255));
    assert_eq!(exclamation_cell.foreground_color, Color(100, 200, 255, 255));

    let number_cell = terminal.get_cell_at(2, 0).unwrap();
    assert_eq!(number_cell.foreground_color, Color(255, 200, 100, 255));

    let letter_cell = terminal.get_cell_at(6, 0).unwrap();
    assert_eq!(letter_cell.foreground_color, Color(200, 255, 200, 255));

    let space_cell = terminal.get_cell_at(1, 0).unwrap();
    assert_eq!(space_cell.foreground_color, Color::default());
}

#[test]
fn test_fps_counter_and_performance_monitoring() {
    let mut terminal = Terminal::new();

    for _ in 0..70 {
        terminal.update();
    }

    assert!(terminal.get_memory_usage() > 0);

    let memory_mb = terminal.get_memory_usage() / (1024 * 1024);
    assert!(memory_mb < 10);
}

#[test]
fn test_boundary_conditions() {
    let mut terminal = Terminal::with_size(3, 3);

    terminal.write_text("AB");
    assert_eq!(terminal.get_cursor_position(), (2, 0));

    terminal.write_char('C');
    assert_eq!(terminal.get_cursor_position(), (0, 1));

    terminal.write_text("DEFGHI");
    let (_cursor_x, cursor_y) = terminal.get_cursor_position();
    assert!(cursor_y == 2);

    terminal.write_char('J');
    assert!(terminal.get_history_size() > 0);
    let (cursor_x, cursor_y) = terminal.get_cursor_position();
    assert_eq!(cursor_y, 2);
    assert_eq!(cursor_x, 1);
}

#[test]
fn test_history_buffer_management() {
    let mut terminal = Terminal::with_size(5, 3);

    for i in 0..10 {
        terminal.write_text(&format!("L{}\n", i));
    }

    let history_size = terminal.get_history_size();
    assert!(history_size > 0);

    let first_history_line = terminal.get_line_from_history(0);
    assert!(first_history_line.is_some());

    let history_content: String = first_history_line
        .unwrap()
        .iter()
        .map(|cell| cell.character)
        .collect::<String>()
        .trim()
        .to_string();

    assert!(!history_content.is_empty());
}

#[test]
fn test_error_recovery() {
    let mut terminal = Terminal::with_size(10, 10);

    assert!(!terminal.set_cell_at(100, 100, TerminalCell::default()));
    assert!(terminal.get_cell_at(100, 100).is_none());

    terminal.resize(0, 0);

    terminal.resize(5, 5);
    assert_eq!(terminal.get_dimensions(), (5, 5));

    terminal.write_text("Test");
    assert_eq!(terminal.get_cell_at(0, 0).unwrap().character, 'T');
}

#[test]
fn test_large_buffer_stress() {
    let start = Instant::now();
    let terminal = Terminal::with_size(500, 200);
    let creation_time = start.elapsed();

    assert!(creation_time < Duration::from_millis(1000));

    let memory_usage = terminal.get_memory_usage();
    let memory_mb = memory_usage / (1024 * 1024);

    assert!(memory_mb < 50);
}

#[test]
fn test_rapid_text_input_stress() {
    let mut terminal = Terminal::with_size(80, 24);
    let start = Instant::now();

    for i in 0..5000 {
        terminal.write_text(&format!("This is line {} with some content to test performance\n", i));
    }

    let write_time = start.elapsed();

    assert!(write_time < Duration::from_secs(2));

    let memory_mb = terminal.get_memory_usage() / (1024 * 1024);
    assert!(memory_mb < 100);

    assert!(terminal.get_history_size() > 0);
}

#[test]
fn test_frequent_resize_stress() {
    let mut terminal = Terminal::with_size(50, 25);
    terminal.write_text("Initial content that should be preserved");

    let start = Instant::now();

    for i in 0..100 {
        let width = 20 + (i % 80);
        let height = 10 + (i % 40);
        terminal.resize(width, height);
    }

    let resize_time = start.elapsed();

    assert!(resize_time < Duration::from_millis(500));

    if terminal.get_dimensions().0 > 7 && terminal.get_dimensions().1 > 0 {
        assert_eq!(terminal.get_cell_at(0, 0).unwrap().character, 'I');
    }
}

#[test]
fn test_memory_optimization_trigger() {
    let mut terminal = Terminal::with_size(100, 50);

    for i in 0..2000 {
        terminal.write_text(&format!(
            "Line {} with content to increase memory usage significantly\n",
            i
        ));
    }

    terminal.update();

    assert!(terminal.get_memory_usage() > 0);
    assert!(terminal.get_history_size() <= 1000);
}
