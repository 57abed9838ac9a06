use rt::history::History;
use rt::screen::{CELL_BYTES, TERMINAL_BYTES};
use rt::terminal::{Terminal, TerminalCell};

fn row(c: char) -> Vec<TerminalCell> {
    vec![TerminalCell { character: c, ..Default::default() }]
}

#[test]
fn test_history_push_and_get() {
    let mut history = History::new(3);
    assert_eq!(history.len(), 0);
    assert_eq!(history.capacity(), 3);
    assert!(history.get(0).is_none());
    history.push(row('a'));
    history.push(row('b'));
    assert_eq!(history.len(), 2);
    assert_eq!(history.get(0).unwrap()[0].character, 'a');
    assert_eq!(history.get(1).unwrap()[0].character, 'b');
    assert!(history.get(2).is_none());
}

#[test]
fn test_history_drops_oldest_beyond_capacity() {
    let mut history = History::new(3);
    for c in ['a', 'b', 'c', 'd', 'e'] {
        history.push(row(c));
    }
    assert_eq!(history.len(), 3);
    assert_eq!(history.get(0).unwrap()[0].character, 'c');
    assert_eq!(history.get(2).unwrap()[0].character, 'e');
}

#[test]
fn test_history_of_capacity_zero_keeps_nothing() {
    let mut history = History::new(0);
    history.push(row('a'));
    assert_eq!(history.len(), 0);
    assert!(history.get(0).is_none());
}

#[test]
fn test_history_trim_and_clear() {
    let mut history = History::new(10);
    for c in ['a', 'b', 'c', 'd'] {
        history.push(row(c));
    }
    history.trim_to(7);
    assert_eq!(history.len(), 4);
    history.trim_to(2);
    assert_eq!(history.len(), 2);
    assert_eq!(history.get(0).unwrap()[0].character, 'c');
    history.trim_to(0);
    assert_eq!(history.len(), 0);
    history.push(row('z'));
    history.clear();
    assert_eq!(history.len(), 0);
    assert_eq!(history.capacity(), 10);
}

#[test]
fn test_history_length_after_scrolls_is_bounded_by_capacity() {
    for (scrolls, capacity) in [(0usize, 5usize), (3, 5), (5, 5), (9, 5), (4, 0), (7, 1)] {
        let mut terminal = Terminal::with_history_capacity(4, 3, capacity);
        for _ in 0..scrolls {
            terminal.scroll_up(1);
        }
        assert_eq!(terminal.get_history_size(), scrolls.min(capacity));
    }
}

#[test]
fn test_history_keeps_newest_rows_in_order() {
    let mut terminal = Terminal::with_history_capacity(2, 2, 3);
    terminal.write_text("0\n1\n2\n3\n4\n5\n");
    assert_eq!(terminal.get_history_size(), 3);
    let kept: Vec<char> =
        (0..3).map(|i| terminal.get_line_from_history(i).unwrap()[0].character).collect();
    assert_eq!(kept, vec!['2', '3', '4']);
    assert_eq!(terminal.max_scroll_offset(), 3);
}

#[test]
fn test_update_trims_only_over_threshold() {
    let mut terminal = Terminal::with_history_capacity(2, 2, 1500);
    for _ in 0..1200 {
        terminal.scroll_up(1);
    }
    terminal.update();
    assert_eq!(terminal.get_history_size(), 1200);
    terminal.optimize_memory();
    assert_eq!(terminal.get_history_size(), 1000);
    let cell = CELL_BYTES;
    let overhead = TERMINAL_BYTES;
    assert_eq!(terminal.get_memory_usage(), (2 + 1000) * 2 * cell + overhead);
}

#[test]
fn test_memory_estimate_formula() {
    let cell = CELL_BYTES;
    let overhead = TERMINAL_BYTES;
    let mut terminal = Terminal::with_size(7, 3);
    assert_eq!(terminal.get_memory_usage(), 7 * 3 * cell + overhead);
    terminal.write_text("a\nb\nc\nd\ne");
    assert_eq!(terminal.get_history_size(), 2);
    assert_eq!(terminal.get_memory_usage(), 7 * 3 * cell + overhead);
    terminal.clear();
    assert_eq!(terminal.get_memory_usage(), (3 + 2) * 7 * cell + overhead);
    terminal.resize(5, 4);
    assert_eq!(terminal.get_memory_usage(), (4 + 2) * 5 * cell + overhead);
}

#[test]
fn test_cell_bytes_is_the_size_of_a_cell() {
    assert_eq!(CELL_BYTES, std::mem::size_of::<TerminalCell>());
    assert_eq!(CELL_BYTES, 20);
    assert_eq!(TERMINAL_BYTES, 256);
}

#[test]
fn test_memory_estimate_is_never_zero() {
    let mut terminal = Terminal::with_size(1, 1);
    assert_eq!(terminal.get_memory_usage(), 20 + 256);
    terminal.update();
    terminal.optimize_memory();
    assert!(terminal.get_memory_usage() > 0);
}
