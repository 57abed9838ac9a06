use rt::event::{Event, Param};
use rt::terminal::Terminal;
use rt::tokenizer::Tokenizer;

fn events(bytes: &[u8]) -> Vec<Event> {
    Tokenizer::new().feed(bytes)
}

fn p(value: u16) -> Param {
    Param { value, sub: false }
}

fn sub(value: u16) -> Param {
    Param { value, sub: true }
}

fn csi(params: Vec<Param>, intermediates: &[u8], ignore: bool, action: char) -> Event {
    Event::Csi { params, intermediates: intermediates.to_vec(), ignore, action }
}

#[test]
fn test_printable_and_control_bytes() {
    assert_eq!(
        events(b"a\n~\x7f\x00"),
        vec![
            Event::Print('a'),
            Event::Execute(0x0a),
            Event::Print('~'),
            Event::Print('\u{7f}'),
            Event::Execute(0)
        ]
    );
}

#[test]
fn test_utf8_characters() {
    assert_eq!(
        events("\u{e9}\u{4e16}\u{1f600}".as_bytes()),
        vec![Event::Print('\u{e9}'), Event::Print('\u{4e16}'), Event::Print('\u{1f600}')]
    );
    assert_eq!(events(b"\xc2\x85"), vec![Event::Execute(0x85)]);
    assert_eq!(events(b"\x9b"), vec![Event::Execute(0x9b)]);
}

#[test]
fn test_invalid_utf8_gives_replacement() {
    let r = Event::Print('\u{fffd}');
    assert_eq!(events(b"\xa0"), vec![r.clone()]);
    assert_eq!(events(b"\xc0"), vec![r.clone()]);
    assert_eq!(events(b"\xff"), vec![r.clone()]);
    assert_eq!(events(b"\xe0\x80\x80"), vec![r.clone()]);
    assert_eq!(events(b"\xed\xa0\x80"), vec![r.clone()]);
    assert_eq!(events(b"\xf4\x90\x80\x80"), vec![r.clone()]);
    assert_eq!(events(b"\xc3A"), vec![Event::Print('A')]);
    assert_eq!(events(b"\xe4\xb8\x1b[A"), vec![csi(vec![], b"", false, 'A')]);
}

#[test]
fn test_control_sequence_parameters() {
    assert_eq!(events(b"\x1b[A"), vec![csi(vec![], b"", false, 'A')]);
    assert_eq!(events(b"\x1b[5A"), vec![csi(vec![p(5)], b"", false, 'A')]);
    assert_eq!(events(b"\x1b[0A"), vec![csi(vec![p(0)], b"", false, 'A')]);
    assert_eq!(events(b"\x1b[12;34H"), vec![csi(vec![p(12), p(34)], b"", false, 'H')]);
    assert_eq!(events(b"\x1b[;5H"), vec![csi(vec![p(0), p(5)], b"", false, 'H')]);
    assert_eq!(events(b"\x1b[5;H"), vec![csi(vec![p(5), p(0)], b"", false, 'H')]);
    assert_eq!(
        events(b"\x1b[38:2:10;1m"),
        vec![csi(vec![p(38), sub(2), sub(10), p(1)], b"", false, 'm')]
    );
    assert_eq!(events(b"\x1b[99999m"), vec![csi(vec![p(65535)], b"", false, 'm')]);
    assert_eq!(events(b"\x1b[65535m"), vec![csi(vec![p(65535)], b"", false, 'm')]);
    assert_eq!(events(b"\x1b[65536m"), vec![csi(vec![p(65535)], b"", false, 'm')]);
}

#[test]
fn test_control_sequence_intermediates() {
    assert_eq!(events(b"\x1b[?25h"), vec![csi(vec![p(25)], b"?", false, 'h')]);
    assert_eq!(events(b"\x1b[4 q"), vec![csi(vec![p(4)], b" ", false, 'q')]);
    assert_eq!(events(b"\x1b[?1$p"), vec![csi(vec![p(1)], b"?$", false, 'p')]);
    assert_eq!(events(b"\x1b[?1 $p"), vec![csi(vec![p(1)], b"? ", true, 'p')]);
    assert_eq!(events(b"\x1b[1?h"), vec![]);
    assert_eq!(events(b"\x1b[ 1hX"), vec![Event::Print('X')]);
}

#[test]
fn test_too_many_parameters_mark_the_sequence() {
    let mut bytes = b"\x1b[".to_vec();
    for _ in 0..31 {
        bytes.extend_from_slice(b"1;");
    }
    bytes.extend_from_slice(b"1m");
    match &events(&bytes)[0] {
        Event::Csi { params, ignore, .. } => {
            assert_eq!(params.len(), 32);
            assert!(!ignore);
        }
        other => panic!("unexpected event {:?}", other),
    }
    let mut bytes = b"\x1b[".to_vec();
    for _ in 0..32 {
        bytes.extend_from_slice(b"1;");
    }
    bytes.extend_from_slice(b"7m");
    match &events(&bytes)[0] {
        Event::Csi { params, ignore, .. } => {
            assert_eq!(params.len(), 32);
            assert!(ignore);
        }
        other => panic!("unexpected event {:?}", other),
    }
}

#[test]
fn test_controls_inside_sequences() {
    assert_eq!(
        events(b"\x1b[1\n2A"),
        vec![Event::Execute(0x0a), csi(vec![p(12)], b"", false, 'A')]
    );
    assert_eq!(events(b"\x1b[1\x182A"), vec![Event::Execute(0x18), Event::Print('2'), Event::Print('A')]);
    assert_eq!(events(b"\x1b[1\x1b[2A"), vec![csi(vec![p(2)], b"", false, 'A')]);
    assert_eq!(events(b"\x1b[1\x7f2A"), vec![csi(vec![p(12)], b"", false, 'A')]);
}

#[test]
fn test_escape_sequence_events() {
    assert_eq!(
        events(b"\x1b7\x1bM\x1b(B"),
        vec![
            Event::Esc { intermediates: vec![], ignore: false, byte: b'7' },
            Event::Esc { intermediates: vec![], ignore: false, byte: b'M' },
            Event::Esc { intermediates: vec![b'('], ignore: false, byte: b'B' }
        ]
    );
    assert_eq!(
        events(b"\x1b #!8"),
        vec![Event::Esc { intermediates: vec![b' ', b'#'], ignore: true, byte: b'8' }]
    );
    assert_eq!(events(b"\x1b\x1b\x1bc"), vec![Event::Esc { intermediates: vec![], ignore: false, byte: b'c' }]);
}

#[test]
fn test_operating_system_command_events() {
    assert_eq!(
        events(b"\x1b]2;hi\x07"),
        vec![Event::Osc { data: b"2;hi".to_vec(), bell_terminated: true }]
    );
    assert_eq!(
        events(b"\x1b]0;a\x00b\x1b\\"),
        vec![
            Event::Osc { data: b"0;ab".to_vec(), bell_terminated: false },
            Event::Esc { intermediates: vec![], ignore: false, byte: b'\\' }
        ]
    );
    assert_eq!(
        events(b"\x1b]1;x\x18y"),
        vec![Event::Osc { data: b"1;x".to_vec(), bell_terminated: false }, Event::Print('y')]
    );
    assert_eq!(
        events(b"\x1b]\x07\x1b]2;t\x07"),
        vec![
            Event::Osc { data: vec![], bell_terminated: true },
            Event::Osc { data: b"2;t".to_vec(), bell_terminated: true }
        ]
    );
}

#[test]
fn test_device_control_and_other_strings() {
    assert_eq!(
        events(b"\x1bP1;2$qpayload\x1b\\x"),
        vec![
            Event::Dcs { params: vec![p(1), p(2)], intermediates: vec![b'$'], ignore: false, action: 'q' },
            Event::Esc { intermediates: vec![], ignore: false, byte: b'\\' },
            Event::Print('x')
        ]
    );
    assert_eq!(events(b"\x1bPq\n#\x9cz"), vec![
        Event::Dcs { params: vec![], intermediates: vec![], ignore: false, action: 'q' },
        Event::Print('z')
    ]);
    assert_eq!(events(b"\x1b_text\x07more\x18k"), vec![Event::Execute(0x18), Event::Print('k')]);
    assert_eq!(events(b"\x1bXa\x1b^b\x1b\\"), vec![Event::Esc { intermediates: vec![], ignore: false, byte: b'\\' }]);
}

#[test]
fn test_sequences_split_across_calls() {
    let whole: &[u8] = "ab\x1b[1;31mc\x1b]2;t\u{e9}\x07\u{4e16}\x1bM".as_bytes();
    let expected = events(whole);
    assert_eq!(expected.len(), 7);
    for cut in 0..=whole.len() {
        let mut tokenizer = Tokenizer::new();
        let mut got = tokenizer.feed(&whole[..cut]);
        got.extend(tokenizer.feed(&whole[cut..]));
        assert_eq!(got, expected, "cut at {}", cut);
        assert!(tokenizer.is_ground());
    }
    let mut tokenizer = Tokenizer::new();
    let mut one_by_one = Vec::new();
    for b in whole {
        if let Some(e) = tokenizer.advance(*b) {
            one_by_one.push(e);
        }
    }
    assert_eq!(one_by_one, expected);
}

#[test]
fn test_screen_is_the_same_however_the_bytes_are_cut() {
    let whole: &[u8] = "ab\x1b[1;31mc\r\n\x1b[2;3Hd\u{4e16}\x1b]2;t\x07\x1b[K".as_bytes();
    let mut reference = Terminal::with_size(10, 4);
    reference.process(&mut Tokenizer::new(), whole);
    for cut in 0..=whole.len() {
        let mut terminal = Terminal::with_size(10, 4);
        let mut tokenizer = Tokenizer::new();
        terminal.process(&mut tokenizer, &whole[..cut]);
        terminal.process(&mut tokenizer, &whole[cut..]);
        assert_eq!(terminal.get_buffer(), reference.get_buffer());
        assert_eq!(terminal.get_cursor(), reference.get_cursor());
        assert_eq!(terminal.get_title(), reference.get_title());
    }
    let mut stepwise = Terminal::with_size(10, 4);
    let mut tokenizer = Tokenizer::new();
    for b in whole {
        stepwise.process_byte(&mut tokenizer, *b);
    }
    assert_eq!(stepwise.get_buffer(), reference.get_buffer());
}

#[test]
fn test_is_ground() {
    let mut tokenizer = Tokenizer::new();
    assert!(tokenizer.is_ground());
    tokenizer.feed(b"\x1b[1");
    assert!(!tokenizer.is_ground());
    tokenizer.feed(b"m");
    assert!(tokenizer.is_ground());
    tokenizer.feed(b"\xe4");
    assert!(!tokenizer.is_ground());
}
