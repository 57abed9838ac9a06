use rt::event::{Event, Param};
use rt::tokenizer::Tokenizer;

struct Recorder {
    events: Vec<Event>,
}

fn flat(params: &vte::Params) -> Vec<Param> {
    let mut out = Vec::new();
    for group in params.iter() {
        for (i, value) in group.iter().enumerate() {
            out.push(Param { value: *value, sub: i > 0 });
        }
    }
    out
}

impl vte::Perform for Recorder {
    fn print(&mut self, c: char) {
        self.events.push(Event::Print(c));
    }

    fn execute(&mut self, byte: u8) {
        self.events.push(Event::Execute(byte));
    }

    fn hook(&mut self, params: &vte::Params, intermediates: &[u8], ignore: bool, action: char) {
        self.events.push(Event::Dcs {
            params: flat(params),
            intermediates: intermediates.to_vec(),
            ignore,
            action,
        });
    }

    fn osc_dispatch(&mut self, params: &[&[u8]], bell_terminated: bool) {
        let data = params.join(&b';');
        self.events.push(Event::Osc { data, bell_terminated });
    }

    fn csi_dispatch(&mut self, params: &vte::Params, intermediates: &[u8], ignore: bool, action: char) {
        self.events.push(Event::Csi {
            params: flat(params),
            intermediates: intermediates.to_vec(),
            ignore,
            action,
        });
    }

    fn esc_dispatch(&mut self, intermediates: &[u8], ignore: bool, byte: u8) {
        self.events.push(Event::Esc { intermediates: intermediates.to_vec(), ignore, byte });
    }
}

fn by_vte(bytes: &[u8]) -> Vec<Event> {
    let mut parser = vte::Parser::new();
    let mut recorder = Recorder { events: Vec::new() };
    parser.advance(&mut recorder, bytes);
    recorder.events
}

#[test]
fn test_tokenizer_agrees_with_vte_on_sequences_with_written_parameters() {
    let corpus: Vec<&[u8]> = vec![
        b"plain text\r\n\ttabbed\x08\x07",
        "caf\u{e9} \u{4e16}\u{754c} \u{1f600}\u{85}".as_bytes(),
        b"\x1b[1;31mred\x1b[0m",
        b"\x1b[12;40H\x1b[2J\x1b[0K\x1b[5A\x1b[3B\x1b[7C\x1b[1D",
        b"\x1b[;5H\x1b[5;H\x1b[38:2:1:2:3;1m\x1b[65535;99999r",
        b"\x1b[?25h\x1b[?1049l\x1b[4 q\x1b[>0c\x1b[?1$p\x1b[1 !\"p",
        b"\x1b[1\n2A\x1b[3\x7f4m\x1b[5\x1b[6n",
        b"\x1b7\x1b8\x1bM\x1bD\x1bE\x1bH\x1bc\x1b=\x1b>\x1b(B\x1b#8\x1b %G",
        b"\x1b]0;title\x07\x1b]2;a;b;c\x1b\\\x1b]7;file:///tmp\x07\x1b]52\x07",
        b"\x1bP1;2$qdata more\x1b\\after\x1bP0q#payload\x9ctail",
        b"\x1b_application command\x1b\\\x1bXstring\x1b\\\x1b^privacy\x1b\\x",
        b"\x1b[1;2;3;4;5;6;7;8;9;10;11;12;13;14;15;16;17;18;19;20;21;22;23;24;25;26;27;28;29;30;31;32;33m",
        b"\x1b[1?5h\x1b[0 1mok\x1b[1\x18rest\x1b\x1b[0m",
    ];
    for bytes in corpus {
        assert_eq!(Tokenizer::new().feed(bytes), by_vte(bytes), "{:?}", bytes);
    }
}

#[test]
fn test_sequence_without_parameters_has_none() {
    assert_eq!(
        Tokenizer::new().feed(b"\x1b[A"),
        vec![Event::Csi { params: vec![], intermediates: vec![], ignore: false, action: 'A' }]
    );
    assert_eq!(
        by_vte(b"\x1b[A"),
        vec![Event::Csi {
            params: vec![Param { value: 0, sub: false }],
            intermediates: vec![],
            ignore: false,
            action: 'A'
        }]
    );
}
