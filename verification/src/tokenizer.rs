use vstd::prelude::*;
use crate::event::{Event, EventView, Param};

verus! {

/// The most parameters, sub-parameters included, that one sequence keeps;
/// a sequence with more is marked to be ignored.
pub const MAX_PARAMS: usize = 32;

/// The most intermediate bytes that one sequence keeps; a sequence with
/// more is marked to be ignored.
pub const MAX_INTERMEDIATES: usize = 2;

/// Where the tokenizer stands in the byte stream.
#[derive(Clone, Copy, Debug, PartialEq, Eq, Structural)]
pub enum State {
    /// Between sequences.
    Ground,
    /// Inside a character of several bytes: `need` more bytes are owed,
    /// `acc` holds the bits read so far, and the finished value must reach
    /// `min` to be no overlong form.
    Utf8 { need: u8, acc: u32, min: u32 },
    Escape,
    EscapeIntermediate,
    CsiEntry,
    CsiParam,
    CsiIntermediate,
    CsiIgnore,
    DcsEntry,
    DcsParam,
    DcsIntermediate,
    DcsPassthrough,
    DcsIgnore,
    OscString,
    SosPmApcString,
}

/// What one byte makes the tokenizer do with what it has collected.
#[derive(Clone, Copy, Debug, PartialEq, Eq, Structural)]
pub enum Action {
    Nothing,
    /// Hand out a character.
    Print(char),
    /// Hand out a control byte.
    Execute(u8),
    /// Keep an intermediate byte.
    Collect(u8),
    /// Extend the parameter being read by a decimal digit.
    Digit(u8),
    /// End the parameter being read; `true` where a sub-parameter follows.
    Separator(bool),
    /// Hand out the control sequence read so far.
    CsiDispatch(char),
    /// Hand out the escape sequence read so far.
    EscDispatch(u8),
    /// Hand out the header of the device control string read so far.
    DcsHook(char),
    /// Keep a byte of an operating system command.
    OscPut(u8),
    /// Hand out the operating system command read so far; `true` where a
    /// bell ended it.
    OscEnd(bool),
}

/// The replacement character, printed for bytes that are no character.
pub open spec fn replacement() -> char {
    '\u{fffd}'
}

/// Whether `byte` is one of the control bytes that act inside a sequence
/// without ending it.
pub open spec fn is_inline_control(byte: u8) -> bool {
    byte <= 0x17 || byte == 0x19 || (0x1c <= byte <= 0x1f)
}

/// What a finished character of several bytes gives: the character, as a
/// control byte where it is one of the second control set, or the
/// replacement character where the value is overlong or no character.
pub open spec fn decoded(value: u32, min: u32) -> Action {
    if value < min || value > 0x10ffff || (0xd800 <= value <= 0xdfff) {
        Action::Print(replacement())
    } else if 0x80 <= value <= 0x9f {
        Action::Execute(value as u8)
    } else {
        Action::Print(value as char)
    }
}

/// The step from the ground state.
pub open spec fn ground_step(byte: u8) -> (Action, State) {
    if byte == 0x1b {
        (Action::Nothing, State::Escape)
    } else if byte < 0x20 {
        (Action::Execute(byte), State::Ground)
    } else if byte < 0x80 {
        (Action::Print(byte as char), State::Ground)
    } else if byte < 0xa0 {
        (Action::Execute(byte), State::Ground)
    } else if byte < 0xc2 {
        (Action::Print(replacement()), State::Ground)
    } else if byte < 0xe0 {
        (Action::Nothing, State::Utf8 { need: 1, acc: (byte - 0xc0) as u32, min: 0x80 })
    } else if byte < 0xf0 {
        (Action::Nothing, State::Utf8 { need: 2, acc: (byte - 0xe0) as u32, min: 0x800 })
    } else if byte < 0xf5 {
        (Action::Nothing, State::Utf8 { need: 3, acc: (byte - 0xf0) as u32, min: 0x10000 })
    } else {
        (Action::Print(replacement()), State::Ground)
    }
}

/// The step that every state but the ground state takes for the bytes
/// that cancel a sequence or start a new one; `stay` for every other byte.
pub open spec fn anywhere_step(byte: u8, stay: State) -> (Action, State) {
    if byte == 0x18 || byte == 0x1a {
        (Action::Execute(byte), State::Ground)
    } else if byte == 0x1b {
        (Action::Nothing, State::Escape)
    } else {
        (Action::Nothing, stay)
    }
}

/// The step inside a sequence, for the states after the escape byte.
pub open spec fn sequence_step(state: State, byte: u8) -> (Action, State) {
    match state {
        State::Escape => {
            if is_inline_control(byte) {
                (Action::Execute(byte), state)
            } else if 0x20 <= byte <= 0x2f {
                (Action::Collect(byte), State::EscapeIntermediate)
            } else if byte == 0x50 {
                (Action::Nothing, State::DcsEntry)
            } else if byte == 0x58 || byte == 0x5e || byte == 0x5f {
                (Action::Nothing, State::SosPmApcString)
            } else if byte == 0x5b {
                (Action::Nothing, State::CsiEntry)
            } else if byte == 0x5d {
                (Action::Nothing, State::OscString)
            } else if 0x30 <= byte <= 0x7e {
                (Action::EscDispatch(byte), State::Ground)
            } else {
                anywhere_step(byte, state)
            }
        },
        State::EscapeIntermediate => {
            if is_inline_control(byte) {
                (Action::Execute(byte), state)
            } else if 0x20 <= byte <= 0x2f {
                (Action::Collect(byte), state)
            } else if 0x30 <= byte <= 0x7e {
                (Action::EscDispatch(byte), State::Ground)
            } else {
                anywhere_step(byte, state)
            }
        },
        State::CsiEntry | State::CsiParam => {
            if is_inline_control(byte) {
                (Action::Execute(byte), state)
            } else if 0x20 <= byte <= 0x2f {
                (Action::Collect(byte), State::CsiIntermediate)
            } else if 0x30 <= byte <= 0x39 {
                (Action::Digit((byte - 0x30) as u8), State::CsiParam)
            } else if byte == 0x3a {
                (Action::Separator(true), State::CsiParam)
            } else if byte == 0x3b {
                (Action::Separator(false), State::CsiParam)
            } else if 0x3c <= byte <= 0x3f {
                if state == State::CsiEntry {
                    (Action::Collect(byte), State::CsiParam)
                } else {
                    (Action::Nothing, State::CsiIgnore)
                }
            } else if 0x40 <= byte <= 0x7e {
                (Action::CsiDispatch(byte as char), State::Ground)
            } else {
                anywhere_step(byte, state)
            }
        },
        State::CsiIntermediate => {
            if is_inline_control(byte) {
                (Action::Execute(byte), state)
            } else if 0x20 <= byte <= 0x2f {
                (Action::Collect(byte), state)
            } else if 0x30 <= byte <= 0x3f {
                (Action::Nothing, State::CsiIgnore)
            } else if 0x40 <= byte <= 0x7e {
                (Action::CsiDispatch(byte as char), State::Ground)
            } else {
                anywhere_step(byte, state)
            }
        },
        State::CsiIgnore => {
            if is_inline_control(byte) {
                (Action::Execute(byte), state)
            } else if 0x40 <= byte <= 0x7e {
                (Action::Nothing, State::Ground)
            } else {
                anywhere_step(byte, state)
            }
        },
        State::DcsEntry | State::DcsParam => {
            if 0x20 <= byte <= 0x2f {
                (Action::Collect(byte), State::DcsIntermediate)
            } else if 0x30 <= byte <= 0x39 {
                (Action::Digit((byte - 0x30) as u8), State::DcsParam)
            } else if byte == 0x3a {
                (Action::Separator(true), State::DcsParam)
            } else if byte == 0x3b {
                (Action::Separator(false), State::DcsParam)
            } else if 0x3c <= byte <= 0x3f {
                if state == State::DcsEntry {
                    (Action::Collect(byte), State::DcsParam)
                } else {
                    (Action::Nothing, State::DcsIgnore)
                }
            } else if 0x40 <= byte <= 0x7e {
                (Action::DcsHook(byte as char), State::DcsPassthrough)
            } else {
                anywhere_step(byte, state)
            }
        },
        State::DcsIntermediate => {
            if 0x20 <= byte <= 0x2f {
                (Action::Collect(byte), state)
            } else if 0x30 <= byte <= 0x3f {
                (Action::Nothing, State::DcsIgnore)
            } else if 0x40 <= byte <= 0x7e {
                (Action::DcsHook(byte as char), State::DcsPassthrough)
            } else {
                anywhere_step(byte, state)
            }
        },
        State::DcsPassthrough => {
            if byte == 0x9c {
                (Action::Nothing, State::Ground)
            } else {
                anywhere_step(byte, state)
            }
        },
        State::OscString => {
            if byte == 0x07 {
                (Action::OscEnd(true), State::Ground)
            } else if byte == 0x18 || byte == 0x1a {
                (Action::OscEnd(false), State::Ground)
            } else if byte == 0x1b {
                (Action::OscEnd(false), State::Escape)
            } else if byte < 0x20 {
                (Action::Nothing, state)
            } else {
                (Action::OscPut(byte), state)
            }
        },
        _ => anywhere_step(byte, state),
    }
}

/// What `byte` makes of `state`: the action to take and the state after
/// it. A character of several bytes that another byte cuts short is
/// dropped, and that byte is read as from the ground state.
pub open spec fn transition(state: State, byte: u8) -> (Action, State) {
    match state {
        State::Ground => ground_step(byte),
        State::Utf8 { need, acc, min } => {
            if 0x80 <= byte <= 0xbf {
                if need <= 1 {
                    (decoded((acc * 64 + (byte - 0x80)) as u32, min), State::Ground)
                } else {
                    (
                        Action::Nothing,
                        State::Utf8 {
                            need: (need - 1) as u8,
                            acc: (acc * 64 + (byte - 0x80)) as u32,
                            min,
                        },
                    )
                }
            } else {
                ground_step(byte)
            }
        },
        _ => sequence_step(state, byte),
    }
}

/// A state of several bytes into a character holds no more bits than its
/// remaining bytes leave room for.
pub open spec fn state_wf(state: State) -> bool {
    match state {
        State::Utf8 { need, acc, min } => {
            &&& 1 <= need <= 3
            &&& need == 1 ==> acc < 0x8000
            &&& need == 2 ==> acc < 0x200
            &&& need == 3 ==> acc < 0x8
        },
        _ => true,
    }
}

/// The step from the ground state, computed.
fn ground_step_of(byte: u8) -> (r: (Action, State))
    ensures
        r == ground_step(byte),
        state_wf(r.1),
{
    if byte == 0x1b {
        (Action::Nothing, State::Escape)
    } else if byte < 0x20 {
        (Action::Execute(byte), State::Ground)
    } else if byte < 0x80 {
        (Action::Print(byte as char), State::Ground)
    } else if byte < 0xa0 {
        (Action::Execute(byte), State::Ground)
    } else if byte < 0xc2 {
        (Action::Print('\u{fffd}'), State::Ground)
    } else if byte < 0xe0 {
        (Action::Nothing, State::Utf8 { need: 1, acc: (byte - 0xc0) as u32, min: 0x80 })
    } else if byte < 0xf0 {
        (Action::Nothing, State::Utf8 { need: 2, acc: (byte - 0xe0) as u32, min: 0x800 })
    } else if byte < 0xf5 {
        (Action::Nothing, State::Utf8 { need: 3, acc: (byte - 0xf0) as u32, min: 0x10000 })
    } else {
        (Action::Print('\u{fffd}'), State::Ground)
    }
}

/// The step for the bytes that cancel a sequence, computed.
fn anywhere_step_of(byte: u8, stay: State) -> (r: (Action, State))
    ensures
        r == anywhere_step(byte, stay),
{
    if byte == 0x18 || byte == 0x1a {
        (Action::Execute(byte), State::Ground)
    } else if byte == 0x1b {
        (Action::Nothing, State::Escape)
    } else {
        (Action::Nothing, stay)
    }
}

fn inline_control(byte: u8) -> (r: bool)
    ensures
        r == is_inline_control(byte),
{
    byte <= 0x17 || byte == 0x19 || (0x1c <= byte && byte <= 0x1f)
}

/// The step inside an escape sequence, computed.
fn escape_step_of(state: State, byte: u8) -> (r: (Action, State))
    requires
        state == State::Escape || state == State::EscapeIntermediate,
    ensures
        r == sequence_step(state, byte),
{
    if inline_control(byte) {
        (Action::Execute(byte), state)
    } else if 0x20 <= byte && byte <= 0x2f {
        (Action::Collect(byte), State::EscapeIntermediate)
    } else if state == State::Escape && byte == 0x50 {
        (Action::Nothing, State::DcsEntry)
    } else if state == State::Escape && (byte == 0x58 || byte == 0x5e || byte == 0x5f) {
        (Action::Nothing, State::SosPmApcString)
    } else if state == State::Escape && byte == 0x5b {
        (Action::Nothing, State::CsiEntry)
    } else if state == State::Escape && byte == 0x5d {
        (Action::Nothing, State::OscString)
    } else if 0x30 <= byte && byte <= 0x7e {
        (Action::EscDispatch(byte), State::Ground)
    } else {
        anywhere_step_of(byte, state)
    }
}

/// The step inside a control sequence, computed.
fn csi_step_of(state: State, byte: u8) -> (r: (Action, State))
    requires
        state == State::CsiEntry || state == State::CsiParam || state == State::CsiIntermediate
            || state == State::CsiIgnore,
    ensures
        r == sequence_step(state, byte),
{
    let reading = state == State::CsiEntry || state == State::CsiParam;
    if inline_control(byte) {
        (Action::Execute(byte), state)
    } else if state == State::CsiIgnore {
        if 0x40 <= byte && byte <= 0x7e {
            (Action::Nothing, State::Ground)
        } else {
            anywhere_step_of(byte, state)
        }
    } else if 0x20 <= byte && byte <= 0x2f {
        (Action::Collect(byte), State::CsiIntermediate)
    } else if 0x40 <= byte && byte <= 0x7e {
        (Action::CsiDispatch(byte as char), State::Ground)
    } else if !reading {
        if 0x30 <= byte && byte <= 0x3f {
            (Action::Nothing, State::CsiIgnore)
        } else {
            anywhere_step_of(byte, state)
        }
    } else if 0x30 <= byte && byte <= 0x39 {
        (Action::Digit(byte - 0x30), State::CsiParam)
    } else if byte == 0x3a {
        (Action::Separator(true), State::CsiParam)
    } else if byte == 0x3b {
        (Action::Separator(false), State::CsiParam)
    } else if 0x3c <= byte && byte <= 0x3f {
        if state == State::CsiEntry {
            (Action::Collect(byte), State::CsiParam)
        } else {
            (Action::Nothing, State::CsiIgnore)
        }
    } else {
        anywhere_step_of(byte, state)
    }
}

/// The step inside the header of a device control string, computed.
fn dcs_step_of(state: State, byte: u8) -> (r: (Action, State))
    requires
        state == State::DcsEntry || state == State::DcsParam || state == State::DcsIntermediate,
    ensures
        r == sequence_step(state, byte),
{
    let reading = state == State::DcsEntry || state == State::DcsParam;
    if 0x20 <= byte && byte <= 0x2f {
        (Action::Collect(byte), State::DcsIntermediate)
    } else if 0x40 <= byte && byte <= 0x7e {
        (Action::DcsHook(byte as char), State::DcsPassthrough)
    } else if !reading {
        if 0x30 <= byte && byte <= 0x3f {
            (Action::Nothing, State::DcsIgnore)
        } else {
            anywhere_step_of(byte, state)
        }
    } else if 0x30 <= byte && byte <= 0x39 {
        (Action::Digit(byte - 0x30), State::DcsParam)
    } else if byte == 0x3a {
        (Action::Separator(true), State::DcsParam)
    } else if byte == 0x3b {
        (Action::Separator(false), State::DcsParam)
    } else if 0x3c <= byte && byte <= 0x3f {
        if state == State::DcsEntry {
            (Action::Collect(byte), State::DcsParam)
        } else {
            (Action::Nothing, State::DcsIgnore)
        }
    } else {
        anywhere_step_of(byte, state)
    }
}

/// The step inside a string, computed.
fn string_step_of(state: State, byte: u8) -> (r: (Action, State))
    requires
        state == State::DcsPassthrough || state == State::DcsIgnore || state == State::OscString
            || state == State::SosPmApcString,
    ensures
        r == sequence_step(state, byte),
{
    if state == State::OscString {
        if byte == 0x07 {
            (Action::OscEnd(true), State::Ground)
        } else if byte == 0x18 || byte == 0x1a {
            (Action::OscEnd(false), State::Ground)
        } else if byte == 0x1b {
            (Action::OscEnd(false), State::Escape)
        } else if byte < 0x20 {
            (Action::Nothing, state)
        } else {
            (Action::OscPut(byte), state)
        }
    } else if state == State::DcsPassthrough && byte == 0x9c {
        (Action::Nothing, State::Ground)
    } else {
        anywhere_step_of(byte, state)
    }
}

/// `char::from_u32` gives the character with the scalar value `i`, and
/// nothing where `i` is no scalar value: a surrogate, or a value beyond the
/// last code point.
pub assume_specification[ char::from_u32 ](i: u32) -> (r: Option<char>)
    ensures
        vstd::utf8::is_scalar(i) ==> r == Some(i as char),
        !vstd::utf8::is_scalar(i) ==> r is None,
;

/// What a finished character of several bytes gives, computed.
fn decode(value: u32, min: u32) -> (a: Action)
    ensures
        a == decoded(value, min),
{
    if value < min || value > 0x10ffff || (0xd800 <= value && value <= 0xdfff) {
        Action::Print('\u{fffd}')
    } else if 0x80 <= value && value <= 0x9f {
        Action::Execute(value as u8)
    } else {
        match char::from_u32(value) {
            Some(c) => Action::Print(c),
            None => Action::Print('\u{fffd}'),
        }
    }
}

/// A byte of an operating system command never starts an escape
/// sequence, and a digit is a decimal digit.
pub proof fn lemma_transition_shape(state: State, byte: u8)
    ensures
        transition(state, byte).0 is OscPut ==> transition(state, byte).1 != State::Escape,
        transition(state, byte).0 is Digit ==> transition(state, byte).0->Digit_0 <= 9,
{
}

/// What `byte` makes of `state`, computed.
pub fn transition_of(state: State, byte: u8) -> (r: (Action, State))
    requires
        state_wf(state),
    ensures
        r == transition(state, byte),
        state_wf(r.1),
        r.0 is OscPut ==> r.1 != State::Escape,
        r.0 is Digit ==> r.0->Digit_0 <= 9,
{
    proof {
        lemma_transition_shape(state, byte);
    }
    match state {
        State::Ground => ground_step_of(byte),
        State::Utf8 { need, acc, min } => {
            if 0x80 <= byte && byte <= 0xbf {
                let value: u32 = acc * 64 + (byte - 0x80) as u32;
                if need <= 1 {
                    (decode(value, min), State::Ground)
                } else {
                    (Action::Nothing, State::Utf8 { need: need - 1, acc: value, min })
                }
            } else {
                ground_step_of(byte)
            }
        },
        State::Escape | State::EscapeIntermediate => escape_step_of(state, byte),
        State::CsiEntry | State::CsiParam | State::CsiIntermediate | State::CsiIgnore => csi_step_of(
            state,
            byte,
        ),
        State::DcsEntry | State::DcsParam | State::DcsIntermediate => dcs_step_of(state, byte),
        State::DcsPassthrough | State::DcsIgnore | State::OscString | State::SosPmApcString => string_step_of(
            state,
            byte,
        ),
    }
}

/// The tokenizer's state as a mathematical value: where it stands, and
/// what it has collected of the sequence it is in.
pub struct TokenizerState {
    pub state: State,
    pub params: Seq<Param>,
    pub param: u16,
    pub param_sub: bool,
    pub param_seen: bool,
    pub intermediates: Seq<u8>,
    pub ignoring: bool,
    pub osc: Seq<u8>,
}

/// The value of a parameter extended by the decimal digit `d`, held at
/// the largest value where it would pass it.
pub open spec fn with_digit(param: u16, d: u8) -> u16 {
    if param * 10 + d > u16::MAX {
        u16::MAX
    } else {
        (param * 10 + d) as u16
    }
}

impl TokenizerState {
    /// The state before any byte.
    pub open spec fn initial() -> TokenizerState {
        TokenizerState {
            state: State::Ground,
            params: Seq::empty(),
            param: 0,
            param_sub: false,
            param_seen: false,
            intermediates: Seq::empty(),
            ignoring: false,
            osc: Seq::empty(),
        }
    }

    /// The bounds that the collected data keeps.
    pub open spec fn wf(self) -> bool {
        &&& state_wf(self.state)
        &&& self.params.len() <= MAX_PARAMS
        &&& self.intermediates.len() <= MAX_INTERMEDIATES
    }

    /// Whether there is no room for one more parameter.
    pub open spec fn params_full(self) -> bool {
        self.params.len() >= MAX_PARAMS
    }

    /// The parameters of the sequence when its final byte arrives: those
    /// that were ended, and the one being read where any was begun.
    pub open spec fn final_params(self) -> Seq<Param> {
        if self.param_seen && !self.params_full() {
            self.params.push(Param { value: self.param, sub: self.param_sub })
        } else {
            self.params
        }
    }

    /// Whether the sequence is to be dropped when its final byte arrives:
    /// it had too many intermediates or too many parameters.
    pub open spec fn final_ignore(self) -> bool {
        self.ignoring || (self.param_seen && self.params_full())
    }

    /// The event that `action` hands out, if any.
    pub open spec fn event_of(self, action: Action) -> Option<EventView> {
        match action {
            Action::Print(c) => Some(EventView::Print(c)),
            Action::Execute(b) => Some(EventView::Execute(b)),
            Action::CsiDispatch(c) => Some(
                EventView::Csi {
                    params: self.final_params(),
                    intermediates: self.intermediates,
                    ignore: self.final_ignore(),
                    action: c,
                },
            ),
            Action::DcsHook(c) => Some(
                EventView::Dcs {
                    params: self.final_params(),
                    intermediates: self.intermediates,
                    ignore: self.final_ignore(),
                    action: c,
                },
            ),
            Action::EscDispatch(b) => Some(
                EventView::Esc { intermediates: self.intermediates, ignore: self.ignoring, byte: b },
            ),
            Action::OscEnd(bell) => Some(EventView::Osc { data: self.osc, bell_terminated: bell }),
            _ => None,
        }
    }

    /// Whether what was collected of a sequence is forgotten: when the
    /// sequence is handed out, and when an escape byte starts a new one.
    pub open spec fn forgets(action: Action, next: State) -> bool {
        next == State::Escape || action is CsiDispatch || action is DcsHook || action is EscDispatch
    }

    /// The state after `action`, with `next` the place to stand.
    pub open spec fn after(self, action: Action, next: State) -> TokenizerState {
        let forget = Self::forgets(action, next);
        TokenizerState {
            state: next,
            params: if forget {
                Seq::empty()
            } else if action is Separator && !self.params_full() {
                self.params.push(Param { value: self.param, sub: self.param_sub })
            } else {
                self.params
            },
            param: if forget {
                0
            } else if action is Separator && !self.params_full() {
                0
            } else if action is Digit && !self.params_full() {
                with_digit(self.param, action->Digit_0)
            } else {
                self.param
            },
            param_sub: if forget {
                false
            } else if action is Separator && !self.params_full() {
                action->Separator_0
            } else {
                self.param_sub
            },
            param_seen: if forget {
                false
            } else if (action is Separator || action is Digit) && !self.params_full() {
                true
            } else {
                self.param_seen
            },
            intermediates: if forget {
                Seq::empty()
            } else if action is Collect && self.intermediates.len() < MAX_INTERMEDIATES {
                self.intermediates.push(action->Collect_0)
            } else {
                self.intermediates
            },
            ignoring: if forget {
                false
            } else if (action is Separator || action is Digit) && self.params_full() {
                true
            } else if action is Collect && self.intermediates.len() >= MAX_INTERMEDIATES {
                true
            } else {
                self.ignoring
            },
            osc: if action is OscEnd {
                Seq::empty()
            } else if action is OscPut {
                self.osc.push(action->OscPut_0)
            } else {
                self.osc
            },
        }
    }

    /// One byte taken: the state after it, and the event it gives, if any.
    pub open spec fn step(self, byte: u8) -> (TokenizerState, Option<EventView>) {
        let (action, next) = transition(self.state, byte);
        (self.after(action, next), self.event_of(action))
    }

    /// The bytes of `bytes` taken in order: the state after them, and the
    /// events they give.
    pub open spec fn run(self, bytes: Seq<u8>) -> (TokenizerState, Seq<EventView>)
        decreases bytes.len(),
    {
        if bytes.len() == 0 {
            (self, Seq::empty())
        } else {
            let (t, events) = self.run(bytes.drop_last());
            let (next, event) = t.step(bytes.last());
            (
                next,
                match event {
                    Some(e) => events.push(e),
                    None => events,
                },
            )
        }
    }
}

/// The events of `events` as mathematical values.
pub open spec fn events_view(events: Seq<Event>) -> Seq<EventView> {
    Seq::new(events.len(), |i: int| events[i]@)
}

/// The tokenizer: it turns the bytes of a child process into events,
/// and keeps what it has read of a sequence from one call to the next.
pub struct Tokenizer {
    pub(crate) state: State,
    pub(crate) params: Vec<Param>,
    pub(crate) param: u16,
    pub(crate) param_sub: bool,
    pub(crate) param_seen: bool,
    pub(crate) intermediates: Vec<u8>,
    pub(crate) ignoring: bool,
    pub(crate) osc: Vec<u8>,
}

impl Tokenizer {
    /// The state of this tokenizer as a mathematical value.
    pub open(crate) spec fn view(&self) -> TokenizerState {
        TokenizerState {
            state: self.state,
            params: self.params@,
            param: self.param,
            param_sub: self.param_sub,
            param_seen: self.param_seen,
            intermediates: self.intermediates@,
            ignoring: self.ignoring,
            osc: self.osc@,
        }
    }

    /// The invariant that every operation of a tokenizer keeps.
    pub open spec fn wf(&self) -> bool {
        self@.wf()
    }

    /// A tokenizer that has read nothing.
    pub fn new() -> (t: Tokenizer)
        ensures
            t.wf(),
            t@ == TokenizerState::initial(),
    {
        Tokenizer {
            state: State::Ground,
            params: Vec::new(),
            param: 0,
            param_sub: false,
            param_seen: false,
            intermediates: Vec::new(),
            ignoring: false,
            osc: Vec::new(),
        }
    }

    /// Whether the tokenizer stands between sequences.
    pub fn is_ground(&self) -> (g: bool)
        ensures
            g == (self@.state == State::Ground),
    {
        self.state == State::Ground
    }

    /// Hands out what was collected of the sequence and forgets it: the
    /// parameters, the intermediates, and whether the sequence is to be
    /// dropped.
    fn take_sequence(&mut self, next: State) -> (r: (Vec<Param>, Vec<u8>, bool))
        requires
            old(self).wf(),
            state_wf(next),
        ensures
            final(self).wf(),
            r.0@ == old(self)@.final_params(),
            r.1@ == old(self)@.intermediates,
            r.2 == old(self)@.final_ignore(),
            final(self)@ == (TokenizerState {
                state: next,
                osc: old(self)@.osc,
                ..TokenizerState::initial()
            }),
    {
        let full = self.params.len() >= MAX_PARAMS;
        let ignore = self.ignoring || (self.param_seen && full);
        let mut params: Vec<Param> = Vec::new();
        let mut intermediates: Vec<u8> = Vec::new();
        core::mem::swap(&mut params, &mut self.params);
        core::mem::swap(&mut intermediates, &mut self.intermediates);
        if self.param_seen && !full {
            params.push(Param { value: self.param, sub: self.param_sub });
        }
        self.param = 0;
        self.param_sub = false;
        self.param_seen = false;
        self.ignoring = false;
        self.state = next;
        (params, intermediates, ignore)
    }

    /// Forgets what was collected of the sequence.
    fn forget(&mut self, next: State)
        requires
            old(self).wf(),
            state_wf(next),
        ensures
            final(self).wf(),
            final(self)@ == (TokenizerState {
                state: next,
                osc: old(self)@.osc,
                ..TokenizerState::initial()
            }),
    {
        self.params.clear();
        self.intermediates.clear();
        self.param = 0;
        self.param_sub = false;
        self.param_seen = false;
        self.ignoring = false;
        self.state = next;
    }

    /// Hands out the payload of the operating system command and forgets it.
    fn take_osc(&mut self) -> (data: Vec<u8>)
        requires
            old(self).wf(),
        ensures
            final(self).wf(),
            data@ == old(self)@.osc,
            final(self)@ == (TokenizerState { osc: Seq::empty(), ..old(self)@ }),
    {
        let mut data: Vec<u8> = Vec::new();
        core::mem::swap(&mut data, &mut self.osc);
        data
    }

    /// Keeps what `action` collects: an intermediate, a digit, a
    /// separator, or a byte of an operating system command.
    fn collect(&mut self, action: Action, next: State)
        requires
            old(self).wf(),
            state_wf(next),
            next != State::Escape,
            action is Collect || action is Digit || action is Separator || action is OscPut
                || action is Nothing,
            action is Digit ==> action->Digit_0 <= 9,
        ensures
            final(self).wf(),
            final(self)@ == old(self)@.after(action, next),
    {
        let full = self.params.len() >= MAX_PARAMS;
        match action {
            Action::Collect(b) => {
                if self.intermediates.len() >= MAX_INTERMEDIATES {
                    self.ignoring = true;
                } else {
                    self.intermediates.push(b);
                }
            },
            Action::Digit(d) => {
                if full {
                    self.ignoring = true;
                } else {
                    let grown: u32 = self.param as u32 * 10 + d as u32;
                    self.param = if grown > 0xffff { 0xffff } else { grown as u16 };
                    self.param_seen = true;
                }
            },
            Action::Separator(sub) => {
                if full {
                    self.ignoring = true;
                } else {
                    self.params.push(Param { value: self.param, sub: self.param_sub });
                    self.param = 0;
                    self.param_sub = sub;
                    self.param_seen = true;
                }
            },
            Action::OscPut(b) => {
                self.osc.push(b);
            },
            _ => {},
        }
        self.state = next;
    }

    /// Takes one byte. Returns the event that the byte completes, if it
    /// completes one.
    pub fn advance(&mut self, byte: u8) -> (event: Option<Event>)
        requires
            old(self).wf(),
        ensures
            final(self).wf(),
            final(self)@ == old(self)@.step(byte).0,
            match event {
                Some(e) => old(self)@.step(byte).1 == Some(e@),
                None => old(self)@.step(byte).1 is None,
            },
    {
        let (action, next) = transition_of(self.state, byte);
        match action {
            Action::Print(c) => {
                self.settle(action, next);
                Some(Event::Print(c))
            },
            Action::Execute(b) => {
                self.settle(action, next);
                Some(Event::Execute(b))
            },
            Action::CsiDispatch(c) => {
                let (params, intermediates, ignore) = self.take_sequence(next);
                Some(Event::Csi { params, intermediates, ignore, action: c })
            },
            Action::DcsHook(c) => {
                let (params, intermediates, ignore) = self.take_sequence(next);
                Some(Event::Dcs { params, intermediates, ignore, action: c })
            },
            Action::EscDispatch(b) => {
                let ignore = self.ignoring;
                let (params, intermediates, dropped) = self.take_sequence(next);
                Some(Event::Esc { intermediates, ignore, byte: b })
            },
            Action::OscEnd(bell) => {
                let data = self.take_osc();
                self.settle(Action::Nothing, next);
                Some(Event::Osc { data, bell_terminated: bell })
            },
            _ => {
                self.settle(action, next);
                None
            },
        }
    }

    /// Moves on to `next` after an action that hands out nothing of the
    /// collected sequence.
    fn settle(&mut self, action: Action, next: State)
        requires
            old(self).wf(),
            state_wf(next),
            !(action is CsiDispatch || action is DcsHook || action is EscDispatch || action
                is OscEnd),
            action is Digit ==> action->Digit_0 <= 9,
            action is OscPut ==> next != State::Escape,
        ensures
            final(self).wf(),
            final(self)@ == old(self)@.after(action, next),
    {
        if next == State::Escape {
            self.forget(next);
        } else {
            match action {
                Action::Print(_) | Action::Execute(_) => {
                    self.collect(Action::Nothing, next);
                },
                _ => {
                    self.collect(action, next);
                },
            }
        }
    }

    /// Takes the bytes of `bytes` in order, which may end inside a
    /// sequence: the next call goes on from there. Returns the events that
    /// the bytes complete.
    pub fn feed(&mut self, bytes: &[u8]) -> (events: Vec<Event>)
        requires
            old(self).wf(),
        ensures
            final(self).wf(),
            final(self)@ == old(self)@.run(bytes@).0,
            events_view(events@) == old(self)@.run(bytes@).1,
    {
        let mut events: Vec<Event> = Vec::new();
        let mut i: usize = 0;
        assert(events_view(events@) =~= Seq::<EventView>::empty());
        assert(bytes@.subrange(0, 0) =~= Seq::<u8>::empty());
        while i < bytes.len()
            invariant
                i <= bytes@.len(),
                self.wf(),
                self@ == old(self)@.run(bytes@.subrange(0, i as int)).0,
                events_view(events@) == old(self)@.run(bytes@.subrange(0, i as int)).1,
            decreases bytes@.len() - i,
        {
            assert(bytes@.subrange(0, i + 1).drop_last() =~= bytes@.subrange(0, i as int));
            let ghost before = events_view(events@);
            match self.advance(bytes[i]) {
                Some(e) => {
                    events.push(e);
                    assert(events_view(events@) =~= before.push(e@));
                },
                None => {},
            }
            i += 1;
        }
        assert(bytes@.subrange(0, bytes@.len() as int) =~= bytes@);
        events
    }
}

} // verus!
