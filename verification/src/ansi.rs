use vstd::prelude::*;
use crate::event::{param_or, get_param_or, Event, EventView, Param};
use crate::screen::{max_of, min_of, minus, plus, tabs_with, tabs_without, ClearMode, Screen};
use crate::terminal::{ansi_color, plain_attributes, Attributes, Color, Cursor, Modes, Terminal};
use crate::unicode::{char_width, display_width, lossy_text, text_of_bytes};
use crate::tokenizer::{Tokenizer, TokenizerState};

verus! {

/// The foreground colour after the rendition parameter `p`.
pub open spec fn sgr_foreground(fg: Color, p: u16) -> Color {
    if p == 0 || p == 39 {
        Color(255, 255, 255, 255)
    } else if 30 <= p <= 37 {
        ansi_color((p - 30) as u8)
    } else if 90 <= p <= 97 {
        ansi_color((p - 90 + 8) as u8)
    } else {
        fg
    }
}

/// The background colour after the rendition parameter `p`.
pub open spec fn sgr_background(bg: Color, p: u16) -> Color {
    if p == 0 || p == 49 {
        Color(0, 0, 0, 255)
    } else if 40 <= p <= 47 {
        ansi_color((p - 40) as u8)
    } else if 100 <= p <= 107 {
        ansi_color((p - 100 + 8) as u8)
    } else {
        bg
    }
}

/// The style flags after the rendition parameter `p`.
pub open spec fn sgr_attributes(a: Attributes, p: u16) -> Attributes {
    if p == 0 {
        plain_attributes()
    } else {
        Attributes {
            bold: if p == 1 {
                true
            } else if p == 22 {
                false
            } else {
                a.bold
            },
            dim: if p == 2 {
                true
            } else if p == 22 {
                false
            } else {
                a.dim
            },
            italic: if p == 3 {
                true
            } else if p == 23 {
                false
            } else {
                a.italic
            },
            underline: if p == 4 {
                true
            } else if p == 24 {
                false
            } else {
                a.underline
            },
            blink: if p == 5 {
                true
            } else if p == 25 {
                false
            } else {
                a.blink
            },
            reverse: if p == 7 {
                true
            } else if p == 27 {
                false
            } else {
                a.reverse
            },
            strikethrough: if p == 9 {
                true
            } else if p == 29 {
                false
            } else {
                a.strikethrough
            },
        }
    }
}

/// The modes after the mode number `p` was set (`enable`) or reset.
/// `private` says that the sequence carried the `?` marker. Numbers that
/// name no mode change nothing.
pub open spec fn mode_applied(m: Modes, p: u16, private: bool, enable: bool) -> Modes {
    Modes {
        application_cursor: if private && p == 1 {
            enable
        } else {
            m.application_cursor
        },
        origin_mode: if private && p == 6 {
            enable
        } else {
            m.origin_mode
        },
        wraparound: if private && p == 7 {
            enable
        } else {
            m.wraparound
        },
        auto_repeat: if private && p == 8 {
            enable
        } else {
            m.auto_repeat
        },
        insert_mode: if !private && p == 4 {
            enable
        } else {
            m.insert_mode
        },
        newline_mode: if !private && p == 20 {
            enable
        } else {
            m.newline_mode
        },
    }
}

/// The number of parameters from index `at` on that are sub-parameters:
/// the rest of a group written with colons.
pub open spec fn sub_run(params: Seq<Param>, at: int) -> int
    decreases params.len() - at,
{
    if at < 0 || at >= params.len() || !params[at].sub {
        0
    } else {
        1 + sub_run(params, at + 1)
    }
}

/// The number of parameters from index `at` on that describe the colour
/// of a 38 or 48 before them. Written with colons, they are the rest of
/// the group. Written with semicolons, they are a 5 and an index, or a 2
/// and three components, as far as the parameters go; after any other
/// value there are none.
pub open spec fn extended_len(params: Seq<Param>, at: int) -> int {
    if at < 0 || at >= params.len() {
        0
    } else if params[at].sub {
        sub_run(params, at)
    } else if params[at].value == 5 {
        if params.len() - at < 2 {
            params.len() - at
        } else {
            2
        }
    } else if params[at].value == 2 {
        if params.len() - at < 4 {
            params.len() - at
        } else {
            4
        }
    } else {
        0
    }
}

/// The colour of the three components at `at`, if each is at most 255.
pub open spec fn components_color(params: Seq<Param>, at: int) -> Option<Color> {
    if params[at].value <= 255 && params[at + 1].value <= 255 && params[at + 2].value <= 255 {
        Some(
            Color(
                params[at].value as u8,
                params[at + 1].value as u8,
                params[at + 2].value as u8,
                255,
            ),
        )
    } else {
        None
    }
}

/// The colour that the parameters from index `at` on describe for a 38
/// or 48 before them, if they describe one: after a 5, the colour of the
/// palette with the index that follows; after a 2, the colour with the red,
/// green and blue that follow, which in a group of five stand behind a
/// colour space that is passed over. An index or a component above 255
/// describes no colour.
pub open spec fn extended_color(params: Seq<Param>, at: int) -> Option<Color> {
    let n = extended_len(params, at);
    if n == 2 && params[at].value == 5 && params[at + 1].value <= 255 {
        Some(ansi_color(params[at + 1].value as u8))
    } else if n == 4 && params[at].value == 2 {
        components_color(params, at + 1)
    } else if n == 5 && params[at].value == 2 {
        components_color(params, at + 2)
    } else {
        None
    }
}

/// Whether the intermediates of a control sequence begin with `?`.
pub open spec fn is_private(intermediates: Seq<u8>) -> bool {
    intermediates.len() > 0 && intermediates[0] == 0x3f
}

impl Screen {
    /// One rendition parameter applied to the current colours and style.
    pub open spec fn sgr_one(self, p: u16) -> Screen {
        Screen {
            fg: sgr_foreground(self.fg, p),
            bg: sgr_background(self.bg, p),
            attrs: sgr_attributes(self.attrs, p),
            ..self
        }
    }

    /// The rendition parameters `params[from..]` applied in order. The
    /// parameters 38 and 48 take the parameters behind them for the colour
    /// they describe, and set the foreground or the background to it where
    /// they describe one.
    pub open spec fn sgr_from(self, params: Seq<Param>, from: int) -> Screen
        decreases params.len() - from,
    {
        if from < 0 || from >= params.len() {
            self
        } else if params[from].value == 38 || params[from].value == 48 {
            let color = extended_color(params, from + 1);
            let used = extended_len(params, from + 1);
            if used < 0 || from + 1 + used > params.len() {
                self
            } else {
                (Screen {
                    fg: if params[from].value == 38 && color is Some {
                        color->0
                    } else {
                        self.fg
                    },
                    bg: if params[from].value == 48 && color is Some {
                        color->0
                    } else {
                        self.bg
                    },
                    ..self
                }).sgr_from(params, from + 1 + used)
            }
        } else {
            self.sgr_one(params[from].value).sgr_from(params, from + 1)
        }
    }

    /// Select graphic rendition: without parameters a reset, else every
    /// parameter in order.
    pub open spec fn sgr(self, params: Seq<Param>) -> Screen {
        if params.len() == 0 {
            self.sgr_one(0)
        } else {
            self.sgr_from(params, 0)
        }
    }

    /// Every mode number of `params` set or reset, in order.
    pub open spec fn set_modes(self, params: Seq<Param>, private: bool, enable: bool) -> Screen
        decreases params.len(),
    {
        if params.len() == 0 {
            self
        } else {
            let s = self.set_modes(params.drop_last(), private, enable);
            Screen { modes: mode_applied(s.modes, params.last().value, private, enable), ..s }
        }
    }

    /// Cursor up by `n` rows; with origin mode on, not above the scroll
    /// region.
    pub open spec fn cursor_up(self, n: usize) -> Screen {
        self.with_cursor_y(
            if self.modes.origin_mode {
                max_of(minus(self.cursor.y, n), self.scroll_top)
            } else {
                minus(self.cursor.y, n)
            },
        )
    }

    /// Cursor down by `n` rows; with origin mode on, not below the scroll
    /// region.
    pub open spec fn cursor_down(self, n: usize) -> Screen {
        self.with_cursor_y(
            if self.modes.origin_mode {
                min_of(plus(self.cursor.y, n), self.scroll_bottom)
            } else {
                min_of(plus(self.cursor.y, n), minus(self.height, 1))
            },
        )
    }

    /// Cursor right by `n` columns, not past the last.
    pub open spec fn cursor_forward(self, n: usize) -> Screen {
        self.with_cursor_x(min_of(plus(self.cursor.x, n), minus(self.width, 1)))
    }

    /// Cursor left by `n` columns, not past the first.
    pub open spec fn cursor_back(self, n: usize) -> Screen {
        self.with_cursor_x(minus(self.cursor.x, n))
    }

    /// Cursor to the first column, `n` rows down.
    pub open spec fn cursor_next_line(self, n: usize) -> Screen {
        self.with_cursor_at(0, min_of(plus(self.cursor.y, n), minus(self.height, 1)))
    }

    /// Cursor to the first column, `n` rows up.
    pub open spec fn cursor_prev_line(self, n: usize) -> Screen {
        self.with_cursor_at(0, minus(self.cursor.y, n))
    }

    /// Cursor to the one-based column `col`.
    pub open spec fn cursor_to_column(self, col: usize) -> Screen {
        self.with_cursor_x(min_of(minus(col, 1), minus(self.width, 1)))
    }

    /// Cursor to the one-based row `row`.
    pub open spec fn cursor_to_row(self, row: usize) -> Screen {
        self.with_cursor_y(min_of(minus(row, 1), minus(self.height, 1)))
    }

    /// Erase in display with the mode number `mode`.
    pub open spec fn erase_in_display(self, mode: usize) -> Screen {
        if mode == 0 {
            self.clear_region(ClearMode::DisplayToEnd)
        } else if mode == 1 {
            self.clear_region(ClearMode::DisplayToStart)
        } else if mode == 2 || mode == 3 {
            self.clear_screen()
        } else {
            self
        }
    }

    /// Erase in line with the mode number `mode`.
    pub open spec fn erase_in_line(self, mode: usize) -> Screen {
        if mode == 0 {
            self.clear_region(ClearMode::LineToEnd)
        } else if mode == 1 {
            self.clear_region(ClearMode::LineToStart)
        } else if mode == 2 {
            self.clear_region(ClearMode::LineAll)
        } else {
            self
        }
    }

    /// Tab clear with the mode number `mode`.
    pub open spec fn tab_clear(self, mode: usize) -> Screen {
        Screen {
            tabs: if mode == 0 {
                tabs_without(self.tabs, self.cursor.x)
            } else if mode == 3 {
                Seq::empty()
            } else {
                self.tabs
            },
            ..self
        }
    }

    /// The control byte `byte` carried out.
    pub open spec fn execute(self, byte: u8) -> Screen {
        if byte == 0x08 {
            self.cursor_back(1)
        } else if byte == 0x09 {
            self.with_cursor_x(self.tabs_forward_from(self.cursor.x, 1))
        } else if byte == 0x0a {
            let s = self.line_feed();
            s.with_cursor_x(
                if s.modes.newline_mode {
                    0
                } else {
                    s.cursor.x
                },
            )
        } else if byte == 0x0b || byte == 0x0c {
            self.line_feed()
        } else if byte == 0x0d {
            self.with_cursor_x(0)
        } else if byte == 0x0e {
            Screen { active_charset: 1, ..self }
        } else if byte == 0x0f {
            Screen { active_charset: 0, ..self }
        } else {
            self
        }
    }

    /// The control sequence with the final character `c` carried out.
    /// Counts and positions default to 1 where the parameter is missing,
    /// erase and clear modes to 0, the bottom margin to the last row.
    pub open spec fn csi(self, params: Seq<Param>, intermediates: Seq<u8>, ignore: bool, c: char) -> Screen {
        let n = param_or(params, 0, 1);
        let mode = param_or(params, 0, 0);
        if ignore {
            self
        } else if c == 'A' {
            self.cursor_up(n)
        } else if c == 'B' {
            self.cursor_down(n)
        } else if c == 'C' {
            self.cursor_forward(n)
        } else if c == 'D' {
            self.cursor_back(n)
        } else if c == 'E' {
            self.cursor_next_line(n)
        } else if c == 'F' {
            self.cursor_prev_line(n)
        } else if c == 'G' {
            self.cursor_to_column(n)
        } else if c == 'H' || c == 'f' {
            self.move_cursor_to(minus(param_or(params, 1, 1), 1), minus(n, 1))
        } else if c == 'I' {
            self.with_cursor_x(self.tabs_forward_from(self.cursor.x, n as nat))
        } else if c == 'J' {
            self.erase_in_display(mode)
        } else if c == 'K' {
            self.erase_in_line(mode)
        } else if c == 'L' {
            self.insert_lines(n)
        } else if c == 'M' {
            self.delete_lines(n)
        } else if c == 'P' {
            self.delete_chars(n)
        } else if c == 'S' {
            self.scroll_up(n)
        } else if c == 'T' {
            self.scroll_down(n)
        } else if c == 'X' {
            self.erase_chars(n)
        } else if c == 'Z' {
            self.with_cursor_x(self.tabs_backward_from(self.cursor.x, n as nat))
        } else if c == 'd' {
            self.cursor_to_row(n)
        } else if c == 'g' {
            self.tab_clear(mode)
        } else if c == 'h' {
            self.set_modes(params, is_private(intermediates), true)
        } else if c == 'l' {
            self.set_modes(params, is_private(intermediates), false)
        } else if c == 'm' {
            self.sgr(params)
        } else if c == 'r' {
            self.set_margins(n, param_or(params, 1, self.height))
        } else if c == 's' {
            Screen { saved_cursor: self.cursor, ..self }
        } else if c == 'u' {
            Screen { cursor: self.saved_cursor, ..self }
        } else {
            self
        }
    }

    /// The escape sequence with the final byte `byte` carried out. A
    /// sequence with intermediates changes nothing.
    pub open spec fn esc(self, intermediates: Seq<u8>, ignore: bool, byte: u8) -> Screen {
        if ignore || intermediates.len() > 0 {
            self
        } else if byte == 0x37 {
            Screen { saved_cursor: self.cursor, ..self }
        } else if byte == 0x38 {
            Screen { cursor: self.saved_cursor, ..self }
        } else if byte == 0x3d {
            Screen { modes: Modes { application_cursor: true, ..self.modes }, ..self }
        } else if byte == 0x3e {
            Screen { modes: Modes { application_cursor: false, ..self.modes }, ..self }
        } else if byte == 0x44 {
            self.line_feed()
        } else if byte == 0x45 {
            self.with_cursor_x(0).line_feed()
        } else if byte == 0x48 {
            Screen { tabs: tabs_with(self.tabs, self.cursor.x), ..self }
        } else if byte == 0x4d {
            self.reverse_index()
        } else if byte == 0x63 {
            self.reset()
        } else {
            self
        }
    }
}

/// The number of sub-parameters from index `at` on, computed.
fn sub_run_of(params: &Vec<Param>, at: usize) -> (n: usize)
    requires
        at <= params@.len(),
    ensures
        n == sub_run(params@, at as int),
        at + n <= params@.len(),
{
    let mut i: usize = at;
    while i < params.len() && params[i].sub
        invariant
            at <= i <= params@.len(),
            sub_run(params@, at as int) == (i - at) + sub_run(params@, i as int),
        decreases params@.len() - i,
    {
        i += 1;
    }
    i - at
}

/// The colour of the three components at `at`, computed.
fn components_color_of(params: &Vec<Param>, at: usize) -> (color: Option<Color>)
    requires
        at + 2 < params@.len(),
    ensures
        color == components_color(params@, at as int),
{
    let len = params.len();
    let r = params[at].value;
    let g = params[at + 1].value;
    let b = params[at + 2].value;
    if r <= 255 && g <= 255 && b <= 255 {
        Some(Color(r as u8, g as u8, b as u8, 255))
    } else {
        None
    }
}

/// The colour that the parameters from index `at` on describe, and how
/// many of them describe it, computed.
fn extended_color_of(params: &Vec<Param>, at: usize) -> (r: (Option<Color>, usize))
    requires
        at <= params@.len(),
    ensures
        r.0 == extended_color(params@, at as int),
        r.1 == extended_len(params@, at as int),
        at + r.1 <= params@.len(),
{
    let len = params.len();
    if at >= len {
        return (None, 0);
    }
    let left: usize = len - at;
    let kind = params[at].value;
    let n: usize = if params[at].sub {
        sub_run_of(params, at)
    } else if kind == 5 {
        if left < 2 { left } else { 2 }
    } else if kind == 2 {
        if left < 4 { left } else { 4 }
    } else {
        0
    };
    let color = if n == 2 && kind == 5 && params[at + 1].value <= 255 {
        Some(Color::from_ansi_color(params[at + 1].value as u8))
    } else if n == 4 && kind == 2 {
        components_color_of(params, at + 1)
    } else if n == 5 && kind == 2 {
        components_color_of(params, at + 2)
    } else {
        None
    };
    (color, n)
}

/// The foreground colour after the rendition parameter `p`.
fn next_foreground(fg: Color, p: u16) -> (c: Color)
    ensures
        c == sgr_foreground(fg, p),
{
    if p == 0 || p == 39 {
        Color(255, 255, 255, 255)
    } else if 30 <= p && p <= 37 {
        Color::from_ansi_color((p - 30) as u8)
    } else if 90 <= p && p <= 97 {
        Color::from_ansi_color((p - 90 + 8) as u8)
    } else {
        fg
    }
}

/// The background colour after the rendition parameter `p`.
fn next_background(bg: Color, p: u16) -> (c: Color)
    ensures
        c == sgr_background(bg, p),
{
    if p == 0 || p == 49 {
        Color(0, 0, 0, 255)
    } else if 40 <= p && p <= 47 {
        Color::from_ansi_color((p - 40) as u8)
    } else if 100 <= p && p <= 107 {
        Color::from_ansi_color((p - 100 + 8) as u8)
    } else {
        bg
    }
}

/// The style flags after the rendition parameter `p`.
fn next_attributes(a: Attributes, p: u16) -> (r: Attributes)
    ensures
        r == sgr_attributes(a, p),
{
    if p == 0 {
        Attributes::default()
    } else {
        Attributes {
            bold: if p == 1 { true } else if p == 22 { false } else { a.bold },
            dim: if p == 2 { true } else if p == 22 { false } else { a.dim },
            italic: if p == 3 { true } else if p == 23 { false } else { a.italic },
            underline: if p == 4 { true } else if p == 24 { false } else { a.underline },
            blink: if p == 5 { true } else if p == 25 { false } else { a.blink },
            reverse: if p == 7 { true } else if p == 27 { false } else { a.reverse },
            strikethrough: if p == 9 { true } else if p == 29 { false } else { a.strikethrough },
        }
    }
}

/// The modes after the mode number `p` was set or reset.
fn next_modes(m: Modes, p: u16, private: bool, enable: bool) -> (r: Modes)
    ensures
        r == mode_applied(m, p, private, enable),
{
    Modes {
        application_cursor: if private && p == 1 { enable } else { m.application_cursor },
        origin_mode: if private && p == 6 { enable } else { m.origin_mode },
        wraparound: if private && p == 7 { enable } else { m.wraparound },
        auto_repeat: if private && p == 8 { enable } else { m.auto_repeat },
        insert_mode: if !private && p == 4 { enable } else { m.insert_mode },
        newline_mode: if !private && p == 20 { enable } else { m.newline_mode },
    }
}

impl Terminal {
    /// Applies one rendition parameter to the current colours and style.
    fn sgr_one(&mut self, p: u16)
        requires
            old(self).wf(),
        ensures
            final(self).wf(),
            final(self)@ == old(self)@.sgr_one(p),
    {
        self.current_fg = next_foreground(self.current_fg, p);
        self.current_bg = next_background(self.current_bg, p);
        self.current_attrs = next_attributes(self.current_attrs, p);
    }

    /// Sets the foreground, for a 38, or the background, for a 48, to
    /// `color` where there is one.
    fn set_extended(&mut self, p: u16, color: Option<Color>)
        requires
            old(self).wf(),
        ensures
            final(self).wf(),
            final(self)@ == (Screen {
                fg: if p == 38 && color is Some {
                    color->0
                } else {
                    old(self)@.fg
                },
                bg: if p == 48 && color is Some {
                    color->0
                } else {
                    old(self)@.bg
                },
                ..old(self)@
            }),
    {
        let fg = self.current_fg;
        let bg = self.current_bg;
        self.current_fg = match color {
            Some(c) => if p == 38 { c } else { fg },
            None => fg,
        };
        self.current_bg = match color {
            Some(c) => if p == 48 { c } else { bg },
            None => bg,
        };
    }

    /// Applies the rendition parameters in order.
    fn sgr_all(&mut self, params: &Vec<Param>)
        requires
            old(self).wf(),
        ensures
            final(self).wf(),
            final(self)@ == old(self)@.sgr_from(params@, 0),
    {
        let mut i: usize = 0;
        while i < params.len()
            invariant
                i <= params@.len(),
                self.wf(),
                self@.sgr_from(params@, i as int) == old(self)@.sgr_from(params@, 0),
            decreases params@.len() - i,
        {
            let p = params[i].value;
            if p == 38 || p == 48 {
                let (color, used) = extended_color_of(params, i + 1);
                self.set_extended(p, color);
                i = i + 1 + used;
            } else {
                self.sgr_one(p);
                i += 1;
            }
        }
    }

    /// Select graphic rendition. Without parameters, and for the
    /// parameter 0, colours and style go back to their defaults; 1, 2, 3, 4,
    /// 5, 7 and 9 set bold, dim, italic, underline, blink, reverse and
    /// strikethrough; 22 to 29 clear them; 30 to 37 and 90 to 97 choose the
    /// foreground, 40 to 47 and 100 to 107 the background, from the sixteen
    /// colours; 39 and 49 choose the default colours. A 38 or 48 sets the
    /// foreground or the background to the colour that the parameters
    /// behind it describe: `5` and an index of the palette of 256 colours,
    /// or `2` and a red, a green and a blue; those parameters are no
    /// renditions of their own. Every other parameter changes nothing.
    pub fn handle_sgr(&mut self, params: &Vec<Param>)
        requires
            old(self).wf(),
        ensures
            final(self).wf(),
            final(self)@ == old(self)@.sgr(params@),
    {
        if params.len() == 0 {
            self.sgr_one(0);
        } else {
            self.sgr_all(params);
        }
    }

    /// Sets (`enable`) or resets every mode that `params` names. With the
    /// `?` marker (`private`): 1 application cursor keys, 6 origin mode, 7
    /// wraparound, 8 auto-repeat. Without it: 4 insert mode, 20 newline
    /// mode. Other numbers change nothing.
    pub fn set_modes(&mut self, params: &Vec<Param>, private: bool, enable: bool)
        requires
            old(self).wf(),
        ensures
            final(self).wf(),
            final(self)@ == old(self)@.set_modes(params@, private, enable),
    {
        let mut i: usize = 0;
        while i < params.len()
            invariant
                i <= params@.len(),
                self.wf(),
                self@ == old(self)@.set_modes(params@.subrange(0, i as int), private, enable),
            decreases params@.len() - i,
        {
            assert(params@.subrange(0, i + 1).drop_last() =~= params@.subrange(0, i as int));
            self.modes = next_modes(self.modes, params[i].value, private, enable);
            i += 1;
        }
        assert(params@.subrange(0, params@.len() as int) =~= params@);
    }

    /// Carries out a control byte: backspace, tab, the line feeds,
    /// carriage return, shift out and shift in. Every other byte, the bell
    /// among them, changes nothing.
    pub fn execute(&mut self, byte: u8)
        requires
            old(self).wf(),
        ensures
            final(self).wf(),
            final(self)@ == old(self)@.execute(byte),
    {
        if byte == 0x08 {
            self.set_cursor_x(self.cursor.x.saturating_sub(1));
        } else if byte == 0x09 {
            self.tab_forward(1);
        } else if byte == 0x0a {
            self.new_line();
        } else if byte == 0x0b || byte == 0x0c {
            self.line_feed();
        } else if byte == 0x0d {
            self.set_cursor_x(0);
        } else if byte == 0x0e {
            self.set_charset(1);
        } else if byte == 0x0f {
            self.set_charset(0);
        }
    }

    /// Puts the cursor on column `x`.
    fn set_cursor_x(&mut self, x: usize)
        requires
            old(self).wf(),
            x < old(self)@.width,
        ensures
            final(self).wf(),
            final(self)@ == old(self)@.with_cursor_x(x),
    {
        self.cursor.x = x;
    }

    /// Makes the character set slot `slot` the active one.
    fn set_charset(&mut self, slot: u8)
        requires
            old(self).wf(),
            slot <= 1,
        ensures
            final(self).wf(),
            final(self)@ == (Screen { active_charset: slot, ..old(self)@ }),
    {
        self.active_charset = slot;
    }

    /// A line feed that also returns to the first column where newline
    /// mode is on.
    fn new_line(&mut self)
        requires
            old(self).wf(),
        ensures
            final(self).wf(),
            final(self)@ == old(self)@.execute(0x0a),
    {
        self.line_feed();
        self.cursor.x = if self.modes.newline_mode { 0 } else { self.cursor.x };
    }

    /// Moves the cursor as one of the cursor motion sequences `A` to `G`
    /// and `d` says.
    fn csi_move(&mut self, n: usize, c: char)
        requires
            old(self).wf(),
            c == 'A' || c == 'B' || c == 'C' || c == 'D' || c == 'E' || c == 'F' || c == 'G' || c
                == 'd',
        ensures
            final(self).wf(),
            final(self)@ == (if c == 'A' {
                old(self)@.cursor_up(n)
            } else if c == 'B' {
                old(self)@.cursor_down(n)
            } else if c == 'C' {
                old(self)@.cursor_forward(n)
            } else if c == 'D' {
                old(self)@.cursor_back(n)
            } else if c == 'E' {
                old(self)@.cursor_next_line(n)
            } else if c == 'F' {
                old(self)@.cursor_prev_line(n)
            } else if c == 'G' {
                old(self)@.cursor_to_column(n)
            } else {
                old(self)@.cursor_to_row(n)
            }),
    {
        let x = self.cursor.x;
        let y = self.cursor.y;
        let last_row: usize = self.height - 1;
        let last_col: usize = self.width - 1;
        let down: usize = y.saturating_add(n);
        let right: usize = x.saturating_add(n);
        let nx: usize = if c == 'C' {
            if right < last_col { right } else { last_col }
        } else if c == 'D' {
            x.saturating_sub(n)
        } else if c == 'E' || c == 'F' {
            0
        } else if c == 'G' {
            let col = n.saturating_sub(1);
            if col < last_col { col } else { last_col }
        } else {
            x
        };
        let ny: usize = if c == 'A' {
            let up = y.saturating_sub(n);
            if self.modes.origin_mode && up < self.scroll_top { self.scroll_top } else { up }
        } else if c == 'B' {
            let limit = if self.modes.origin_mode { self.scroll_bottom } else { last_row };
            if down < limit { down } else { limit }
        } else if c == 'E' {
            if down < last_row { down } else { last_row }
        } else if c == 'F' {
            y.saturating_sub(n)
        } else if c == 'd' {
            let row = n.saturating_sub(1);
            if row < last_row { row } else { last_row }
        } else {
            y
        };
        self.cursor = Cursor { x: nx, y: ny, visible: self.cursor.visible, shape: self.cursor.shape };
    }

    /// Erase in display: mode 0 from the cursor to the end of the screen,
    /// 1 from the start of the screen to the cursor, 2 and 3 the whole
    /// screen. Other modes change nothing.
    pub fn erase_in_display(&mut self, mode: usize)
        requires
            old(self).wf(),
        ensures
            final(self).wf(),
            final(self)@ == old(self)@.erase_in_display(mode),
    {
        if mode == 0 {
            self.clear_region(ClearMode::DisplayToEnd);
        } else if mode == 1 {
            self.clear_region(ClearMode::DisplayToStart);
        } else if mode == 2 || mode == 3 {
            self.clear_screen();
        }
    }

    /// Erase in line: mode 0 from the cursor to the end of the row, 1 from
    /// the start of the row to the cursor, 2 the whole row. Other modes
    /// change nothing.
    pub fn erase_in_line(&mut self, mode: usize)
        requires
            old(self).wf(),
        ensures
            final(self).wf(),
            final(self)@ == old(self)@.erase_in_line(mode),
    {
        if mode == 0 {
            self.clear_region(ClearMode::LineToEnd);
        } else if mode == 1 {
            self.clear_region(ClearMode::LineToStart);
        } else if mode == 2 {
            self.clear_region(ClearMode::LineAll);
        }
    }

    /// Tab clear: mode 0 removes the stop at the cursor, 3 removes all.
    pub fn tab_clear(&mut self, mode: usize)
        requires
            old(self).wf(),
        ensures
            final(self).wf(),
            final(self)@ == old(self)@.tab_clear(mode),
    {
        if mode == 0 {
            self.clear_tab_stop();
        } else if mode == 3 {
            self.clear_all_tab_stops();
        }
    }

    /// Carries out a control sequence that edits the grid or the tab
    /// stops: `I` to `M`, `P`, `S`, `T`, `X`, `Z` and `g`.
    fn csi_edit(&mut self, n: usize, mode: usize, c: char)
        requires
            old(self).wf(),
            c == 'I' || c == 'J' || c == 'K' || c == 'L' || c == 'M' || c == 'P' || c == 'S' || c
                == 'T' || c == 'X' || c == 'Z' || c == 'g',
        ensures
            final(self).wf(),
            final(self)@ == (if c == 'I' {
                old(self)@.with_cursor_x(old(self)@.tabs_forward_from(old(self)@.cursor.x, n as nat))
            } else if c == 'J' {
                old(self)@.erase_in_display(mode)
            } else if c == 'K' {
                old(self)@.erase_in_line(mode)
            } else if c == 'L' {
                old(self)@.insert_lines(n)
            } else if c == 'M' {
                old(self)@.delete_lines(n)
            } else if c == 'P' {
                old(self)@.delete_chars(n)
            } else if c == 'S' {
                old(self)@.scroll_up(n)
            } else if c == 'T' {
                old(self)@.scroll_down(n)
            } else if c == 'X' {
                old(self)@.erase_chars(n)
            } else if c == 'Z' {
                old(self)@.with_cursor_x(old(self)@.tabs_backward_from(old(self)@.cursor.x, n as nat))
            } else {
                old(self)@.tab_clear(mode)
            }),
    {
        if c == 'I' {
            self.tab_forward(n);
        } else if c == 'J' {
            self.erase_in_display(mode);
        } else if c == 'K' {
            self.erase_in_line(mode);
        } else if c == 'L' {
            self.insert_lines(n);
        } else if c == 'M' {
            self.delete_lines(n);
        } else if c == 'P' {
            self.delete_chars(n);
        } else if c == 'S' {
            self.scroll_up(n);
        } else if c == 'T' {
            self.scroll_down(n);
        } else if c == 'X' {
            self.erase_chars(n);
        } else if c == 'Z' {
            self.tab_backward(n);
        } else {
            self.tab_clear(mode);
        }
    }

    /// Carries out a control sequence. `A` to `G` and `d` move the cursor,
    /// `H` and `f` place it, `I` and `Z` tab forward and backward, `J` and
    /// `K` erase, `L` and `M` insert and delete rows, `P` and `X` delete and
    /// erase cells, `S` and `T` scroll, `g` clears tab stops, `h` and `l`
    /// set and reset modes, `m` selects the rendition, `r` sets the scroll
    /// region, `s` and `u` save and restore the cursor. A sequence marked
    /// `ignore`, and every other final character, changes nothing.
    pub fn csi_dispatch(&mut self, params: &Vec<Param>, intermediates: &Vec<u8>, ignore: bool, c: char)
        requires
            old(self).wf(),
        ensures
            final(self).wf(),
            final(self)@ == old(self)@.csi(params@, intermediates@, ignore, c),
    {
        if ignore {
            return ;
        }
        let n = get_param_or(params, 0, 1);
        let mode = get_param_or(params, 0, 0);
        if c == 'A' || c == 'B' || c == 'C' || c == 'D' || c == 'E' || c == 'F' || c == 'G' || c == 'd' {
            self.csi_move(n, c);
        } else if c == 'I' || c == 'J' || c == 'K' || c == 'L' || c == 'M' || c == 'P' || c == 'S' || c
            == 'T' || c == 'X' || c == 'Z' || c == 'g' {
            self.csi_edit(n, mode, c);
        } else if c == 'H' || c == 'f' {
            let col = get_param_or(params, 1, 1);
            self.move_cursor_to(col.saturating_sub(1), n.saturating_sub(1));
        } else if c == 'h' || c == 'l' {
            let private = intermediates.len() > 0 && intermediates[0] == 0x3f;
            self.set_modes(params, private, c == 'h');
        } else if c == 'm' {
            self.handle_sgr(params);
        } else if c == 'r' {
            let bottom = get_param_or(params, 1, self.height);
            self.set_margins(n, bottom);
        } else if c == 's' {
            self.save_cursor();
        } else if c == 'u' {
            self.restore_cursor();
        }
    }

    /// Carries out an escape sequence: `7` and `8` save and restore the
    /// cursor, `=` and `>` switch the application keypad on and off, `D`
    /// is a line feed, `E` a line feed to the first column, `H` sets a tab
    /// stop, `M` is a reverse line feed, `c` resets the terminal. A sequence
    /// marked `ignore`, one with intermediates, and every other final byte
    /// changes nothing.
    pub fn esc_dispatch(&mut self, intermediates: &Vec<u8>, ignore: bool, byte: u8)
        requires
            old(self).wf(),
        ensures
            final(self).wf(),
            final(self)@ == old(self)@.esc(intermediates@, ignore, byte),
    {
        if ignore || intermediates.len() > 0 {
            return ;
        }
        if byte == 0x37 {
            self.save_cursor();
        } else if byte == 0x38 {
            self.restore_cursor();
        } else if byte == 0x3d {
            self.modes.application_cursor = true;
        } else if byte == 0x3e {
            self.modes.application_cursor = false;
        } else if byte == 0x44 {
            self.line_feed();
        } else if byte == 0x45 {
            self.cursor.x = 0;
            self.line_feed();
        } else if byte == 0x48 {
            self.set_tab_stop();
        } else if byte == 0x4d {
            self.reverse_index();
        } else if byte == 0x63 {
            self.reset();
        }
    }
}

/// The number of columns that the character `c` takes on the screen.
/// A character below U+00A0 takes one: the printable ASCII characters are
/// one column wide, and the control characters, which have no width, are
/// given one column. From U+00A0 on it is the character's display width,
/// and one column for a character that has none.
pub open spec fn printed_width(c: char) -> usize {
    if (c as u32) < 0xa0 {
        1
    } else {
        match char_width(c) {
            Some(w) => w,
            None => 1,
        }
    }
}

/// The text of the bytes `bytes`: the text that they encode where they
/// are valid UTF-8, else their characters with the replacement character
/// in place of what is no UTF-8.
pub open spec fn payload_text(bytes: Seq<u8>) -> Seq<char> {
    if vstd::utf8::valid_utf8(bytes) {
        vstd::utf8::decode_utf8(bytes)
    } else {
        lossy_text(bytes)
    }
}

/// The index of the first semicolon among `data[from..]`, if there is one.
pub open spec fn first_semicolon(data: Seq<u8>, from: int) -> Option<int>
    decreases data.len() - from,
{
    if from < 0 || from >= data.len() {
        None
    } else if data[from] == 0x3b {
        Some(from)
    } else {
        first_semicolon(data, from + 1)
    }
}

/// The one byte of `code`, where it is one byte: the digit of an
/// operating system command's number.
pub open spec fn osc_digit(code: Seq<u8>) -> Option<u8> {
    if code.len() == 1 {
        Some(code[0])
    } else {
        None
    }
}

/// The text `file://`.
pub open spec fn file_prefix() -> Seq<char> {
    seq!['f', 'i', 'l', 'e', ':', '/', '/']
}

/// `text` without a leading `file://`.
pub open spec fn without_file_prefix(text: Seq<char>) -> Seq<char> {
    if text.len() >= 7 && text.subrange(0, 7) == file_prefix() {
        text.subrange(7, text.len() as int)
    } else {
        text
    }
}

impl Screen {
    /// The operating system command with the number `code` and the text
    /// `text` carried out: 0 sets the icon title and the window title, 1
    /// the icon title, 2 the window title, 7 the working directory, without
    /// a leading `file://`. Every other number changes nothing.
    pub open spec fn osc_apply(self, code: Seq<u8>, text: Seq<char>) -> Screen {
        let digit = osc_digit(code);
        Screen {
            title: if digit == Some(0x30u8) || digit == Some(0x32u8) {
                text
            } else {
                self.title
            },
            icon_title: if digit == Some(0x30u8) || digit == Some(0x31u8) {
                text
            } else {
                self.icon_title
            },
            working_directory: if digit == Some(0x37u8) {
                without_file_prefix(text)
            } else {
                self.working_directory
            },
            ..self
        }
    }

    /// The event `event` carried out, where there is one.
    pub open spec fn apply_opt(self, event: Option<EventView>) -> Screen {
        match event {
            Some(e) => self.apply(e),
            None => self,
        }
    }

    /// The operating system command with the payload `data` carried out.
    /// The payload is a number, a semicolon and a text; one without a
    /// semicolon changes nothing.
    pub open spec fn osc(self, data: Seq<u8>) -> Screen {
        match first_semicolon(data, 0) {
            Some(i) => self.osc_apply(
                data.subrange(0, i),
                payload_text(data.subrange(i + 1, data.len() as int)),
            ),
            None => self,
        }
    }

    /// The event `event` carried out.
    #[verifier::opaque]
    pub open spec fn apply(self, event: EventView) -> Screen {
        match event {
            EventView::Print(c) => self.print(c, printed_width(c)),
            EventView::Execute(b) => self.execute(b),
            EventView::Csi { params, intermediates, ignore, action } => self.csi(
                params,
                intermediates,
                ignore,
                action,
            ),
            EventView::Esc { intermediates, ignore, byte } => self.esc(intermediates, ignore, byte),
            EventView::Osc { data, bell_terminated } => self.osc(data),
            EventView::Dcs { params, intermediates, ignore, action } => self,
        }
    }

    /// The events of `events` carried out in order.
    pub open spec fn apply_all(self, events: Seq<EventView>) -> Screen
        decreases events.len(),
    {
        if events.len() == 0 {
            self
        } else {
            self.apply_all(events.drop_last()).apply(events.last())
        }
    }

    /// The bytes `bytes` of a child process shown: the tokenizer in the
    /// state `tokenizer` turns them into events, which are carried out in
    /// order.
    pub open spec fn process(self, tokenizer: TokenizerState, bytes: Seq<u8>) -> Screen {
        self.apply_all(tokenizer.run(bytes).1)
    }
}

/// Whether `text` begins with `file://`.
fn has_file_prefix(text: &str) -> (r: bool)
    ensures
        r == (text@.len() >= 7 && text@.subrange(0, 7) == file_prefix()),
{
    let n = text.unicode_len();
    if n < 7 {
        return false;
    }
    let r = text.get_char(0) == 'f' && text.get_char(1) == 'i' && text.get_char(2) == 'l'
        && text.get_char(3) == 'e' && text.get_char(4) == ':' && text.get_char(5) == '/'
        && text.get_char(6) == '/';
    proof {
        if r {
            assert(text@.subrange(0, 7) =~= file_prefix());
        } else {
            let p = text@.subrange(0, 7);
            assert(p[0] == text@[0] && p[1] == text@[1] && p[2] == text@[2] && p[3] == text@[3]
                && p[4] == text@[4] && p[5] == text@[5] && p[6] == text@[6]);
        }
    }
    r
}

/// `text` without a leading `file://`.
pub fn strip_file_prefix(text: String) -> (r: String)
    ensures
        r@ == without_file_prefix(text@),
{
    if has_file_prefix(text.as_str()) {
        let n = text.as_str().unicode_len();
        text.as_str().substring_char(7, n).to_owned()
    } else {
        text
    }
}

/// The index of the first semicolon of `data`; its length where it has
/// none.
pub fn find_semicolon(data: &Vec<u8>) -> (at: usize)
    ensures
        at <= data@.len(),
        at < data@.len() ==> first_semicolon(data@, 0) == Some(at as int),
        at == data@.len() ==> first_semicolon(data@, 0) is None,
{
    let mut i: usize = 0;
    while i < data.len()
        invariant
            i <= data@.len(),
            first_semicolon(data@, 0) == first_semicolon(data@, i as int),
        decreases data@.len() - i,
    {
        if data[i] == 0x3b {
            return i;
        }
        i += 1;
    }
    i
}

/// The bytes `from..to` of `data`.
pub fn slice_of(data: &Vec<u8>, from: usize, to: usize) -> (part: Vec<u8>)
    requires
        from <= to <= data@.len(),
    ensures
        part@ == data@.subrange(from as int, to as int),
{
    let mut part: Vec<u8> = Vec::new();
    let mut i: usize = from;
    while i < to
        invariant
            from <= i <= to <= data@.len(),
            part@ == data@.subrange(from as int, i as int),
        decreases to - i,
    {
        part.push(data[i]);
        i += 1;
        assert(part@ =~= data@.subrange(from as int, i as int));
    }
    part
}

impl Terminal {
    /// Prints the character `c` at the cursor with the current colours
    /// and style, and moves the cursor on by its display width.
    pub fn print(&mut self, c: char)
        requires
            old(self).wf(),
        ensures
            final(self).wf(),
            final(self)@ == old(self)@.print(c, printed_width(c)),
            (c as u32) < 0xa0 ==> final(self)@ == old(self)@.print(c, 1),
    {
        let w: usize = match display_width(c) {
            Some(w) => w,
            None => 1,
        };
        self.print_with_width(c, w);
    }

    /// Carries out the operating system command with the number `code`,
    /// given as its digits, and the text `text`.
    pub fn osc_apply(&mut self, code: &Vec<u8>, text: String)
        requires
            old(self).wf(),
        ensures
            final(self).wf(),
            final(self)@ == old(self)@.osc_apply(code@, text@),
    {
        let digit: u8 = if code.len() == 1 { code[0] } else { 0 };
        if digit == 0x30 {
            self.set_icon_title(text.clone());
            self.set_title(text);
        } else if digit == 0x31 {
            self.set_icon_title(text);
        } else if digit == 0x32 {
            self.set_title(text);
        } else if digit == 0x37 {
            self.set_working_directory(strip_file_prefix(text));
        }
    }

    /// Sets the window title.
    pub fn set_title(&mut self, title: String)
        requires
            old(self).wf(),
        ensures
            final(self).wf(),
            final(self)@ == (Screen { title: title@, ..old(self)@ }),
    {
        self.title = title;
    }

    /// Sets the icon title.
    pub fn set_icon_title(&mut self, title: String)
        requires
            old(self).wf(),
        ensures
            final(self).wf(),
            final(self)@ == (Screen { icon_title: title@, ..old(self)@ }),
    {
        self.icon_title = title;
    }

    /// Carries out an operating system command from its payload: a
    /// number, a semicolon and a text. 0 sets the icon title and the window
    /// title, 1 the icon title, 2 the window title, 7 the working directory.
    /// A payload without a semicolon, and every other number, changes
    /// nothing.
    pub fn osc_dispatch(&mut self, data: &Vec<u8>, bell_terminated: bool)
        requires
            old(self).wf(),
        ensures
            final(self).wf(),
            final(self)@ == old(self)@.osc(data@),
            first_semicolon(data@, 0) is None ==> final(self)@ == old(self)@,
            first_semicolon(data@, 0) is Some && vstd::utf8::valid_utf8(
                data@.subrange(first_semicolon(data@, 0)->0 + 1, data@.len() as int),
            ) ==> final(self)@ == old(self)@.osc_apply(
                data@.subrange(0, first_semicolon(data@, 0)->0),
                vstd::utf8::decode_utf8(
                    data@.subrange(first_semicolon(data@, 0)->0 + 1, data@.len() as int),
                ),
            ),
    {
        let i = find_semicolon(data);
        if i < data.len() {
            let code = slice_of(data, 0, i);
            let rest = slice_of(data, i + 1, data.len());
            let text = text_of_bytes(rest.as_slice());
            self.osc_apply(&code, text);
        }
    }

    /// Carries out one event of the tokenizer.
    pub fn dispatch(&mut self, event: &Event)
        requires
            old(self).wf(),
        ensures
            final(self).wf(),
            final(self)@ == old(self)@.apply(event@),
    {
        reveal(Screen::apply);
        match event {
            Event::Print(c) => {
                self.print(*c);
            },
            Event::Execute(b) => {
                self.execute(*b);
            },
            Event::Csi { params, intermediates, ignore, action } => {
                self.csi_dispatch(params, intermediates, *ignore, *action);
            },
            Event::Esc { intermediates, ignore, byte } => {
                self.esc_dispatch(intermediates, *ignore, *byte);
            },
            Event::Osc { data, bell_terminated } => {
                self.osc_dispatch(data, *bell_terminated);
            },
            Event::Dcs { params, intermediates, ignore, action } => {},
        }
    }

    /// Shows the bytes `bytes` of the child process: `tokenizer` turns
    /// them into events, and each event is carried out before the next byte
    /// is read. The bytes may end inside a sequence; the tokenizer keeps
    /// what it has read of it for the next call.
    pub fn process(&mut self, tokenizer: &mut Tokenizer, bytes: &[u8])
        requires
            old(self).wf(),
            old(tokenizer).wf(),
        ensures
            final(self).wf(),
            final(tokenizer).wf(),
            final(tokenizer)@ == old(tokenizer)@.run(bytes@).0,
            final(self)@ == old(self)@.process(old(tokenizer)@, bytes@),
    {
        let mut i: usize = 0;
        assert(bytes@.subrange(0, 0) =~= Seq::<u8>::empty());
        while i < bytes.len()
            invariant
                i <= bytes@.len(),
                self.wf(),
                tokenizer.wf(),
                tokenizer@ == old(tokenizer)@.run(bytes@.subrange(0, i as int)).0,
                self@ == old(self)@.apply_all(old(tokenizer)@.run(bytes@.subrange(0, i as int)).1),
            decreases bytes@.len() - i,
        {
            proof {
                lemma_run_step(old(tokenizer)@, bytes@.subrange(0, i + 1));
                assert(bytes@.subrange(0, i + 1).drop_last() =~= bytes@.subrange(0, i as int));
                lemma_apply_all_step(
                    old(self)@,
                    old(tokenizer)@.run(bytes@.subrange(0, i as int)).1,
                    tokenizer@.step(bytes@[i as int]).1,
                );
            }
            self.process_byte(tokenizer, bytes[i]);
            i += 1;
        }
        assert(bytes@.subrange(0, bytes@.len() as int) =~= bytes@);
    }

    /// Shows one byte of the child process.
    pub fn process_byte(&mut self, tokenizer: &mut Tokenizer, byte: u8)
        requires
            old(self).wf(),
            old(tokenizer).wf(),
        ensures
            final(self).wf(),
            final(tokenizer).wf(),
            final(tokenizer)@ == old(tokenizer)@.step(byte).0,
            final(self)@ == old(self)@.apply_opt(old(tokenizer)@.step(byte).1),
    {
        match tokenizer.advance(byte) {
            Some(e) => {
                self.dispatch(&e);
            },
            None => {},
        }
    }
}

/// The events of a run end with the event of its last byte.
pub proof fn lemma_run_step(t: TokenizerState, bytes: Seq<u8>)
    requires
        bytes.len() > 0,
    ensures
        t.run(bytes).0 == t.run(bytes.drop_last()).0.step(bytes.last()).0,
        t.run(bytes).1 == push_opt(
            t.run(bytes.drop_last()).1,
            t.run(bytes.drop_last()).0.step(bytes.last()).1,
        ),
{
}

/// `events` with `event` at its end, where there is one.
pub open spec fn push_opt(events: Seq<EventView>, event: Option<EventView>) -> Seq<EventView> {
    match event {
        Some(e) => events.push(e),
        None => events,
    }
}

/// Carrying out events and then one more is carrying out all of them.
pub proof fn lemma_apply_all_step(s: Screen, events: Seq<EventView>, event: Option<EventView>)
    ensures
        s.apply_all(push_opt(events, event)) == s.apply_all(events).apply_opt(event),
{
    match event {
        Some(e) => {
            assert(events.push(e).drop_last() =~= events);
        },
        None => {},
    }
}

} // verus!
