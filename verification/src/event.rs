use vstd::prelude::*;

verus! {

/// One numeric parameter of a control sequence. `sub` says that it was
/// separated from the parameter before it by a colon: it then belongs to
/// the same group.
#[derive(Clone, Copy, Debug, PartialEq, Eq, Structural)]
pub struct Param {
    pub value: u16,
    pub sub: bool,
}

/// What the tokenizer hands to the dispatcher.
#[derive(Clone, Debug, PartialEq, Eq)]
pub enum Event {
    /// A character to show.
    Print(char),
    /// A control byte.
    Execute(u8),
    /// A control sequence: parameters, intermediate bytes, whether it was
    /// malformed and is to be dropped, and the final character.
    Csi { params: Vec<Param>, intermediates: Vec<u8>, ignore: bool, action: char },
    /// An escape sequence: intermediate bytes, whether it is to be
    /// dropped, and the final byte.
    Esc { intermediates: Vec<u8>, ignore: bool, byte: u8 },
    /// An operating system command: its payload, and whether a bell ended
    /// it.
    Osc { data: Vec<u8>, bell_terminated: bool },
    /// The header of a device control string: parameters, intermediate
    /// bytes, whether it is to be dropped, and the final character.
    Dcs { params: Vec<Param>, intermediates: Vec<u8>, ignore: bool, action: char },
}

/// An event as a mathematical value.
pub enum EventView {
    Print(char),
    Execute(u8),
    Csi { params: Seq<Param>, intermediates: Seq<u8>, ignore: bool, action: char },
    Esc { intermediates: Seq<u8>, ignore: bool, byte: u8 },
    Osc { data: Seq<u8>, bell_terminated: bool },
    Dcs { params: Seq<Param>, intermediates: Seq<u8>, ignore: bool, action: char },
}

impl View for Event {
    type V = EventView;

    open spec fn view(&self) -> EventView {
        match *self {
            Event::Print(c) => EventView::Print(c),
            Event::Execute(b) => EventView::Execute(b),
            Event::Csi { params, intermediates, ignore, action } => EventView::Csi {
                params: params@,
                intermediates: intermediates@,
                ignore,
                action,
            },
            Event::Esc { intermediates, ignore, byte } => EventView::Esc {
                intermediates: intermediates@,
                ignore,
                byte,
            },
            Event::Osc { data, bell_terminated } => EventView::Osc { data: data@, bell_terminated },
            Event::Dcs { params, intermediates, ignore, action } => EventView::Dcs {
                params: params@,
                intermediates: intermediates@,
                ignore,
                action,
            },
        }
    }
}

/// Whether a parameter group starts at index `i` of `params`.
pub open spec fn starts_group(params: Seq<Param>, i: int) -> bool {
    i == 0 || !params[i].sub
}

/// The first value of the `n`-th parameter group among `params[from..]`,
/// if there is such a group.
pub open spec fn nth_param_from(params: Seq<Param>, from: int, n: nat) -> Option<u16>
    decreases params.len() - from,
{
    if from < 0 || from >= params.len() {
        None
    } else if starts_group(params, from) {
        if n == 0 {
            Some(params[from].value)
        } else {
            nth_param_from(params, from + 1, (n - 1) as nat)
        }
    } else {
        nth_param_from(params, from + 1, n)
    }
}

/// The first value of the `n`-th parameter group, or `default` where
/// there is no such group.
pub open spec fn param_or(params: Seq<Param>, n: nat, default: usize) -> usize {
    match nth_param_from(params, 0, n) {
        Some(v) => v as usize,
        None => default,
    }
}

/// The first value of the `n`-th parameter group, if there is one.
pub fn nth_param(params: &Vec<Param>, n: usize) -> (value: Option<u16>)
    ensures
        value == nth_param_from(params@, 0, n as nat),
{
    let mut i: usize = 0;
    let mut left: usize = n;
    while i < params.len()
        invariant
            i <= params@.len(),
            nth_param_from(params@, 0, n as nat) == nth_param_from(params@, i as int, left as nat),
        decreases params@.len() - i,
    {
        if i == 0 || !params[i].sub {
            if left == 0 {
                return Some(params[i].value);
            }
            left -= 1;
        }
        i += 1;
    }
    None
}

/// The first value of the `n`-th parameter group, or `default`.
pub fn get_param_or(params: &Vec<Param>, n: usize, default: usize) -> (value: usize)
    ensures
        value == param_or(params@, n as nat, default),
{
    match nth_param(params, n) {
        Some(v) => v as usize,
        None => default,
    }
}

} // verus!
