use vstd::prelude::*;
use crate::terminal::{
    blank_cell, home_cursor, initial_modes, plain_attributes, Attributes, Color, Cursor, Modes,
    TerminalCell,
};

verus! {

/// A row of a screen or of the scrollback.
pub type Row = Seq<TerminalCell>;

/// The whole state of a terminal, as a mathematical value.
pub struct Screen {
    pub width: usize,
    pub height: usize,
    pub grid: Seq<Row>,
    pub cursor: Cursor,
    pub saved_cursor: Cursor,
    pub modes: Modes,
    pub scroll_top: usize,
    pub scroll_bottom: usize,
    pub active_charset: u8,
    pub tabs: Seq<usize>,
    pub fg: Color,
    pub bg: Color,
    pub attrs: Attributes,
    pub title: Seq<char>,
    pub icon_title: Seq<char>,
    pub working_directory: Seq<char>,
    pub history: Seq<Row>,
    pub history_capacity: usize,
    pub memory_usage: usize,
}

/// A row of `width` blank cells.
pub open spec fn blank_row(width: usize) -> Row {
    Seq::new(width as nat, |c: int| blank_cell())
}

/// A grid of `height` blank rows.
pub open spec fn blank_grid(width: usize, height: usize) -> Seq<Row> {
    Seq::new(height as nat, |r: int| blank_row(width))
}

/// Every row of `grid` has `width` cells, and there are `height` of them.
pub open spec fn grid_has_shape(grid: Seq<Row>, width: usize, height: usize) -> bool {
    &&& grid.len() == height
    &&& forall|r: int| 0 <= r < height ==> (#[trigger] grid[r]).len() == width
}

/// The tab stops of a fresh screen: every eighth column after the first.
pub open spec fn default_tabs(width: usize) -> Seq<usize> {
    Seq::new(
        if width == 0 {
            0nat
        } else {
            ((width - 1) / 8) as nat
        },
        |i: int| ((i + 1) * 8) as usize,
    )
}

/// Tab stops are kept in increasing order, inside the screen.
pub open spec fn tabs_ordered(tabs: Seq<usize>, width: usize) -> bool {
    &&& forall|i: int, j: int| 0 <= i < j < tabs.len() ==> tabs[i] < tabs[j]
    &&& forall|i: int| 0 <= i < tabs.len() ==> tabs[i] < width
}

pub open spec fn min_of(a: usize, b: usize) -> usize {
    if a <= b {
        a
    } else {
        b
    }
}

pub open spec fn max_of(a: usize, b: usize) -> usize {
    if a >= b {
        a
    } else {
        b
    }
}

/// `a - b`, or zero where `b` is the larger.
pub open spec fn minus(a: usize, b: usize) -> usize {
    if a >= b {
        (a - b) as usize
    } else {
        0
    }
}

/// `a + b`, or the largest `usize` where the sum does not fit.
pub open spec fn plus(a: usize, b: usize) -> usize {
    if a + b > usize::MAX {
        usize::MAX
    } else {
        (a + b) as usize
    }
}

/// The rows `first..=last` of `grid` moved up by `k`: the top `k` rows of
/// the band leave it, `k` blank rows enter at its bottom, and the rows
/// outside the band stay.
pub open spec fn shift_up(grid: Seq<Row>, first: int, last: int, k: int, width: usize) -> Seq<Row> {
    Seq::new(
        grid.len(),
        |r: int|
            if first <= r <= last {
                if r + k <= last {
                    grid[r + k]
                } else {
                    blank_row(width)
                }
            } else {
                grid[r]
            },
    )
}

/// The rows `first..=last` of `grid` moved down by `k`: the bottom `k`
/// rows of the band leave it, `k` blank rows enter at its top, and the rows
/// outside the band stay.
pub open spec fn shift_down(grid: Seq<Row>, first: int, last: int, k: int, width: usize) -> Seq<
    Row,
> {
    Seq::new(
        grid.len(),
        |r: int|
            if first <= r <= last {
                if r - k >= first {
                    grid[r - k]
                } else {
                    blank_row(width)
                }
            } else {
                grid[r]
            },
    )
}

/// The scrollback after `rows` were appended to `history`: the newest
/// `capacity` rows of both, oldest first.
#[verifier::opaque]
pub open spec fn push_history(history: Seq<Row>, rows: Seq<Row>, capacity: usize) -> Seq<Row> {
    let all = history + rows;
    if all.len() > capacity {
        all.subrange(all.len() - capacity, all.len() as int)
    } else {
        all
    }
}

/// The largest number of scrollback rows that survive a trim for memory.
pub open spec fn trimmed_history_rows() -> usize {
    1000
}

/// The memory estimate above which `update` trims the scrollback.
pub open spec fn memory_threshold() -> usize {
    104857600
}

/// The bytes that one cell takes in memory: a character, two colours and
/// seven flags.
pub const CELL_BYTES: usize = 20;

/// The bytes counted for a terminal apart from its cells: its cursor,
/// modes, colours and the headers of its collections.
pub const TERMINAL_BYTES: usize = 256;

/// The estimated memory footprint of a terminal in bytes: `CELL_BYTES`
/// for every cell of the grid and of `history_rows` rows of the current
/// width, plus `TERMINAL_BYTES`; the largest `usize` where that does not
/// fit. It is never zero.
pub open spec fn memory_estimate(width: usize, height: usize, history_rows: nat) -> usize {
    let total = (height + history_rows) * width * CELL_BYTES + TERMINAL_BYTES;
    if total > usize::MAX {
        usize::MAX
    } else {
        total as usize
    }
}

/// The memory estimate counts the terminal itself, so it is at least
/// `TERMINAL_BYTES`.
pub proof fn lemma_memory_estimate_positive(width: usize, height: usize, history_rows: nat)
    ensures
        memory_estimate(width, height, history_rows) >= TERMINAL_BYTES,
        memory_estimate(width, height, history_rows) >= 1,
{
    assert((height + history_rows) * width * CELL_BYTES >= 0) by (nonlinear_arith);
}

/// Which cells an erase operation blanks, relative to the cursor.
#[derive(Clone, Copy, Debug, PartialEq, Eq, Structural)]
pub enum ClearMode {
    /// From the cursor to the end of the screen.
    DisplayToEnd,
    /// From the start of the screen to the cursor, the cursor's cell included.
    DisplayToStart,
    /// The whole screen.
    DisplayAll,
    /// From the cursor to the end of its row.
    LineToEnd,
    /// From the start of the cursor's row to the cursor, its cell included.
    LineToStart,
    /// The whole row of the cursor.
    LineAll,
}

/// Whether the cell at column `c` of row `r` falls to `mode` with the
/// cursor at column `cx` of row `cy`.
pub open spec fn in_clear_region(mode: ClearMode, cx: usize, cy: usize, c: int, r: int) -> bool {
    match mode {
        ClearMode::DisplayToEnd => r > cy || (r == cy && c >= cx),
        ClearMode::DisplayToStart => r < cy || (r == cy && c <= cx),
        ClearMode::DisplayAll => true,
        ClearMode::LineToEnd => r == cy && c >= cx,
        ClearMode::LineToStart => r == cy && c <= cx,
        ClearMode::LineAll => r == cy,
    }
}

/// `grid` with the cells blanked that fall to `mode` with the cursor at
/// column `cx` of row `cy`.
pub open spec fn cleared(grid: Seq<Row>, mode: ClearMode, cx: usize, cy: usize) -> Seq<Row> {
    Seq::new(
        grid.len(),
        |r: int|
            Seq::new(
                grid[r].len(),
                |c: int|
                    if in_clear_region(mode, cx, cy, c, r) {
                        blank_cell()
                    } else {
                        grid[r][c]
                    },
            ),
    )
}

/// `grid`, of `old_width` columns, cut or padded with blanks to the given
/// size, its content kept at the top left.
pub open spec fn refit(grid: Seq<Row>, old_width: usize, width: usize, height: usize) -> Seq<Row> {
    Seq::new(
        height as nat,
        |r: int|
            Seq::new(
                width as nat,
                |c: int|
                    if r < grid.len() && c < old_width {
                        grid[r][c]
                    } else {
                        blank_cell()
                    },
            ),
    )
}

/// `row` with the `k` cells from column `x` on removed, the rest moved
/// left, and blanks entering at the end.
pub open spec fn row_delete_chars(row: Row, x: int, k: int) -> Row {
    Seq::new(
        row.len(),
        |c: int|
            if c < x {
                row[c]
            } else if c + k < row.len() {
                row[c + k]
            } else {
                blank_cell()
            },
    )
}

/// `row` with the cells of columns `from..to` blanked.
pub open spec fn row_erase(row: Row, from: int, to: int) -> Row {
    Seq::new(
        row.len(),
        |c: int|
            if from <= c < to {
                blank_cell()
            } else {
                row[c]
            },
    )
}

/// The highlight colour that plain text written with `write_char` gets:
/// one for operators, one for digits, one for ASCII letters, white for the
/// rest.
pub open spec fn color_for_char(c: char) -> Color {
    if c == '=' || c == '!' || c == '&' || c == '|' || c == '<' || c == '>' {
        Color(100, 200, 255, 255)
    } else if '0' <= c <= '9' {
        Color(255, 200, 100, 255)
    } else if ('A' <= c <= 'Z') || ('a' <= c <= 'z') {
        Color(200, 255, 200, 255)
    } else {
        Color(255, 255, 255, 255)
    }
}

/// The first tab stop to the right of column `x` among `tabs[from..]`, if any.
pub open spec fn next_tab_from(tabs: Seq<usize>, x: usize, from: int) -> Option<usize>
    decreases tabs.len() - from,
{
    if from < 0 || from >= tabs.len() {
        None
    } else if tabs[from] > x {
        Some(tabs[from])
    } else {
        next_tab_from(tabs, x, from + 1)
    }
}

/// The last tab stop to the left of column `x` among `tabs[..upto]`, if any.
pub open spec fn prev_tab_upto(tabs: Seq<usize>, x: usize, upto: int) -> Option<usize>
    decreases upto,
{
    if upto <= 0 || upto > tabs.len() {
        None
    } else if tabs[upto - 1] < x {
        Some(tabs[upto - 1])
    } else {
        prev_tab_upto(tabs, x, upto - 1)
    }
}

/// `tabs` without the stop at column `x`.
pub open spec fn tabs_without(tabs: Seq<usize>, x: usize) -> Seq<usize> {
    if tabs.contains(x) {
        tabs.remove(tabs.index_of(x))
    } else {
        tabs
    }
}

/// The number of stops of `tabs` left of column `x`.
pub open spec fn tabs_before(tabs: Seq<usize>, x: usize) -> int
    decreases tabs.len(),
{
    if tabs.len() == 0 {
        0
    } else if tabs.last() < x {
        tabs_before(tabs.drop_last(), x) + 1
    } else {
        tabs_before(tabs.drop_last(), x)
    }
}

/// `tabs` with a stop at column `x`, in order; unchanged where it has one.
pub open spec fn tabs_with(tabs: Seq<usize>, x: usize) -> Seq<usize> {
    if tabs.contains(x) {
        tabs
    } else {
        tabs.insert(tabs_before(tabs, x), x)
    }
}

impl Screen {
    /// A fresh screen of the given size and scrollback capacity.
    pub open spec fn initial(width: usize, height: usize, history_capacity: usize) -> Screen {
        Screen {
            width,
            height,
            grid: blank_grid(width, height),
            cursor: home_cursor(),
            saved_cursor: home_cursor(),
            modes: initial_modes(),
            scroll_top: 0,
            scroll_bottom: minus(height, 1),
            active_charset: 0,
            tabs: default_tabs(width),
            fg: Color(255, 255, 255, 255),
            bg: Color(0, 0, 0, 255),
            attrs: plain_attributes(),
            title: Seq::empty(),
            icon_title: Seq::empty(),
            working_directory: Seq::empty(),
            history: Seq::empty(),
            history_capacity,
            memory_usage: memory_estimate(width, height, 0),
        }
    }

    /// The invariant of a terminal's state.
    pub open spec fn wf(self) -> bool {
        &&& self.width >= 1
        &&& self.height >= 1
        &&& grid_has_shape(self.grid, self.width, self.height)
        &&& self.cursor.x < self.width
        &&& self.cursor.y < self.height
        &&& self.saved_cursor.x < self.width
        &&& self.saved_cursor.y < self.height
        &&& self.scroll_top <= self.scroll_bottom < self.height
        &&& self.active_charset <= 1
        &&& tabs_ordered(self.tabs, self.width)
        &&& self.history.len() <= self.history_capacity
        &&& self.memory_usage >= 1
    }

    /// Whether the scroll region spans the whole screen.
    pub open spec fn region_is_full(self) -> bool {
        self.scroll_top == 0 && self.scroll_bottom + 1 == self.height
    }

    /// The cell at column `x` of row `y`, if there is one.
    pub open spec fn cell_at(self, x: usize, y: usize) -> Option<TerminalCell> {
        if y < self.grid.len() && x < self.grid[y as int].len() {
            Some(self.grid[y as int][x as int])
        } else {
            None
        }
    }

    /// The screen with `cell` at column `x` of row `y`; unchanged where
    /// that is outside the grid.
    pub open spec fn put_cell(self, x: usize, y: usize, cell: TerminalCell) -> Screen {
        if y < self.grid.len() && x < self.grid[y as int].len() {
            Screen { grid: self.grid.update(y as int, self.grid[y as int].update(x as int, cell)), ..self }
        } else {
            self
        }
    }

    pub open spec fn with_cursor_x(self, x: usize) -> Screen {
        Screen { cursor: Cursor { x, ..self.cursor }, ..self }
    }

    pub open spec fn with_cursor_y(self, y: usize) -> Screen {
        Screen { cursor: Cursor { y, ..self.cursor }, ..self }
    }

    pub open spec fn with_cursor_at(self, x: usize, y: usize) -> Screen {
        Screen { cursor: Cursor { x, y, ..self.cursor }, ..self }
    }

    /// The rows of the scroll region move up by `n` (at most the region's
    /// height). Where the region is the whole screen, the rows that leave go
    /// to the scrollback; otherwise they are lost.
    pub open spec fn scroll_up(self, n: usize) -> Screen {
        let k = min_of(n, (self.scroll_bottom - self.scroll_top + 1) as usize);
        Screen {
            grid: shift_up(self.grid, self.scroll_top as int, self.scroll_bottom as int, k as int, self.width),
            history: if self.region_is_full() {
                push_history(self.history, self.grid.subrange(0, k as int), self.history_capacity)
            } else {
                self.history
            },
            ..self
        }
    }

    /// The rows of the scroll region move down by `n` (at most the
    /// region's height); the rows that leave are lost.
    pub open spec fn scroll_down(self, n: usize) -> Screen {
        let k = min_of(n, (self.scroll_bottom - self.scroll_top + 1) as usize);
        Screen {
            grid: shift_down(
                self.grid,
                self.scroll_top as int,
                self.scroll_bottom as int,
                k as int,
                self.width,
            ),
            ..self
        }
    }

    /// Whether the cursor stands inside the scroll region.
    pub open spec fn cursor_in_region(self) -> bool {
        self.scroll_top <= self.cursor.y <= self.scroll_bottom
    }

    /// `n` blank rows open at the cursor's row; the rows from there to the
    /// bottom of the scroll region move down. Nothing happens with the cursor
    /// outside the region.
    pub open spec fn insert_lines(self, n: usize) -> Screen {
        if self.cursor_in_region() {
            let k = min_of(n, (self.scroll_bottom - self.cursor.y + 1) as usize);
            Screen {
                grid: shift_down(
                    self.grid,
                    self.cursor.y as int,
                    self.scroll_bottom as int,
                    k as int,
                    self.width,
                ),
                ..self
            }
        } else {
            self
        }
    }

    /// `n` rows from the cursor's row on leave; the rows below them, down
    /// to the bottom of the scroll region, move up. Nothing happens with the
    /// cursor outside the region.
    pub open spec fn delete_lines(self, n: usize) -> Screen {
        if self.cursor_in_region() {
            let k = min_of(n, (self.scroll_bottom - self.cursor.y + 1) as usize);
            Screen {
                grid: shift_up(
                    self.grid,
                    self.cursor.y as int,
                    self.scroll_bottom as int,
                    k as int,
                    self.width,
                ),
                ..self
            }
        } else {
            self
        }
    }

    /// The cursor goes down one row; at the bottom of the scroll region the
    /// region scrolls up instead, and on the last row of the screen outside
    /// the region nothing moves.
    pub open spec fn line_feed(self) -> Screen {
        if self.cursor.y == self.scroll_bottom {
            self.scroll_up(1)
        } else if self.cursor.y + 1 < self.height {
            self.with_cursor_y((self.cursor.y + 1) as usize)
        } else {
            self
        }
    }

    /// The cursor goes up one row; at the top of the scroll region the
    /// region scrolls down instead.
    pub open spec fn reverse_index(self) -> Screen {
        if self.cursor.y == self.scroll_top {
            self.scroll_down(1)
        } else {
            self.with_cursor_y(minus(self.cursor.y, 1))
        }
    }

    /// The cursor after a character of `w` columns was written at it: `w`
    /// columns on, or, where that passes the last column, at the start of
    /// the next row (by a line feed) with wraparound on, and on the last
    /// column with wraparound off.
    pub open spec fn advance(self, w: usize) -> Screen {
        if self.cursor.x + w >= self.width {
            if self.modes.wraparound {
                self.with_cursor_x(0).line_feed()
            } else {
                self.with_cursor_x(minus(self.width, 1))
            }
        } else {
            self.with_cursor_x((self.cursor.x + w) as usize)
        }
    }

    /// The cell that a character written now gets: the current colours,
    /// exchanged where reverse video is on, and the current style flags. The
    /// exchange is done here, so the cell's own reverse flag stays off.
    pub open spec fn pen_cell(self, c: char) -> TerminalCell {
        TerminalCell {
            character: c,
            foreground_color: if self.attrs.reverse {
                self.bg
            } else {
                self.fg
            },
            background_color: if self.attrs.reverse {
                self.fg
            } else {
                self.bg
            },
            bold: self.attrs.bold,
            italic: self.attrs.italic,
            underline: self.attrs.underline,
            strikethrough: self.attrs.strikethrough,
            reverse: false,
            blink: self.attrs.blink,
            dim: self.attrs.dim,
        }
    }

    /// Where a character of `w` columns goes that does not fit on the rest
    /// of the cursor's row: to the next row with wraparound on, else to
    /// the last columns of this row.
    pub open spec fn make_room(self, w: usize) -> Screen {
        if self.cursor.x + w > self.width {
            if self.modes.wraparound {
                self.with_cursor_x(0).line_feed()
            } else {
                self.with_cursor_x(minus(self.width, w))
            }
        } else {
            self
        }
    }

    /// Printing the character `c` of display width `w`. The null
    /// character and characters of width zero are dropped.
    pub open spec fn print(self, c: char, w: usize) -> Screen {
        if c == '\0' || w == 0 {
            self
        } else {
            let s = self.make_room(w);
            s.put_cell(s.cursor.x, s.cursor.y, s.pen_cell(c)).advance(w)
        }
    }

    /// The cell that `write_char` writes for a plain character.
    pub open spec fn plain_cell(c: char) -> TerminalCell {
        TerminalCell { character: c, foreground_color: color_for_char(c), ..blank_cell() }
    }

    /// Writing a plain character at the cursor and moving one column on.
    pub open spec fn put_plain(self, c: char) -> Screen {
        self.put_cell(self.cursor.x, self.cursor.y, Self::plain_cell(c)).advance(1)
    }

    /// `n` spaces written one after the other.
    pub open spec fn put_spaces(self, n: nat) -> Screen
        decreases n,
    {
        if n == 0 {
            self
        } else {
            self.put_plain(' ').put_spaces((n - 1) as nat)
        }
    }

    /// The number of spaces a tab writes from column `x`: up to the next
    /// multiple of eight, or to the end of the row.
    pub open spec fn tab_fill(self, x: usize) -> nat {
        let next = (x / 8 + 1) * 8;
        if next <= self.width {
            (next - x) as nat
        } else {
            (self.width - x) as nat
        }
    }

    /// Writing one character of plain text: newline, carriage return, tab
    /// and backspace act; every other character is written with its
    /// highlight colour.
    pub open spec fn write_char(self, c: char) -> Screen {
        if c == '\n' {
            self.with_cursor_x(0).line_feed()
        } else if c == '\r' {
            self.with_cursor_x(0)
        } else if c == '\t' {
            self.put_spaces(self.tab_fill(self.cursor.x))
        } else if c == '\x08' {
            if self.cursor.x > 0 {
                self.with_cursor_x((self.cursor.x - 1) as usize).put_cell(
                    (self.cursor.x - 1) as usize,
                    self.cursor.y,
                    blank_cell(),
                )
            } else {
                self
            }
        } else {
            self.put_plain(c)
        }
    }

    /// Writing the characters of `text` in order.
    pub open spec fn write_text(self, text: Seq<char>) -> Screen
        decreases text.len(),
    {
        if text.len() == 0 {
            self
        } else {
            self.write_text(text.drop_last()).write_char(text.last())
        }
    }

    /// Every cell blank; the cursor stays.
    pub open spec fn clear_screen(self) -> Screen {
        Screen { grid: blank_grid(self.width, self.height), ..self }
    }

    /// The cells that `mode` names blanked; the cursor stays.
    pub open spec fn clear_region(self, mode: ClearMode) -> Screen {
        Screen { grid: cleared(self.grid, mode, self.cursor.x, self.cursor.y), ..self }
    }

    /// `n` cells leave the cursor's row at the cursor; the rest of the row
    /// moves left.
    pub open spec fn delete_chars(self, n: usize) -> Screen {
        let y = self.cursor.y as int;
        let k = min_of(n, (self.width - self.cursor.x) as usize);
        Screen {
            grid: self.grid.update(y, row_delete_chars(self.grid[y], self.cursor.x as int, k as int)),
            ..self
        }
    }

    /// `n` cells from the cursor on are blanked, as far as the row goes.
    pub open spec fn erase_chars(self, n: usize) -> Screen {
        let y = self.cursor.y as int;
        Screen {
            grid: self.grid.update(
                y,
                row_erase(self.grid[y], self.cursor.x as int, min_of(plus(self.cursor.x, n), self.width) as int),
            ),
            ..self
        }
    }

    /// The column that a forward tab reaches from column `x`: the next tab
    /// stop, or the last column where there is none.
    pub open spec fn tab_forward_from(self, x: usize) -> usize {
        match next_tab_from(self.tabs, x, 0) {
            Some(t) => min_of(t, minus(self.width, 1)),
            None => minus(self.width, 1),
        }
    }

    /// The column that `n` forward tabs reach from column `x`.
    pub open spec fn tabs_forward_from(self, x: usize, n: nat) -> usize
        decreases n,
    {
        if n == 0 {
            x
        } else if next_tab_from(self.tabs, x, 0) is None {
            minus(self.width, 1)
        } else {
            self.tabs_forward_from(self.tab_forward_from(x), (n - 1) as nat)
        }
    }

    /// The column that `n` backward tabs reach from column `x`: each goes
    /// to the last tab stop before the column, or to the first column where
    /// there is none.
    pub open spec fn tabs_backward_from(self, x: usize, n: nat) -> usize
        decreases n,
    {
        if n == 0 {
            x
        } else {
            match prev_tab_upto(self.tabs, x, self.tabs.len() as int) {
                Some(t) => self.tabs_backward_from(t, (n - 1) as nat),
                None => 0,
            }
        }
    }

    /// The cursor moved to column `x` of row `y`, kept inside the screen.
    /// With origin mode on, rows count from the top of the scroll region and
    /// end at its bottom.
    pub open spec fn move_cursor_to(self, x: usize, y: usize) -> Screen {
        let row = if self.modes.origin_mode {
            min_of(plus(self.scroll_top, y), self.scroll_bottom)
        } else {
            min_of(y, minus(self.height, 1))
        };
        self.with_cursor_at(min_of(x, minus(self.width, 1)), row)
    }

    /// The scroll region set from the one-based rows `top` and `bottom`. A
    /// region of less than two rows gives the whole screen. The cursor goes
    /// home: to the region's top with origin mode on, else to the top of the
    /// screen.
    pub open spec fn set_margins(self, top: usize, bottom: usize) -> Screen {
        let t = min_of(minus(top, 1), minus(self.height, 1));
        let b = min_of(minus(bottom, 1), minus(self.height, 1));
        let first = if t >= b {
            0
        } else {
            t
        };
        let last = if t >= b {
            minus(self.height, 1)
        } else {
            b
        };
        Screen {
            scroll_top: first,
            scroll_bottom: last,
            cursor: Cursor {
                x: 0,
                y: if self.modes.origin_mode {
                    first
                } else {
                    0
                },
                ..self.cursor
            },
            ..self
        }
    }

    /// The cursor `c` kept inside a screen of the given size.
    pub open spec fn clamp_cursor(c: Cursor, width: usize, height: usize) -> Cursor {
        Cursor { x: min_of(c.x, minus(width, 1)), y: min_of(c.y, minus(height, 1)), ..c }
    }

    /// The screen at a new size. A zero size and the present size change
    /// nothing. Otherwise the content stays at the top left, both cursors
    /// are kept inside, the tab stops are set anew at every eighth column,
    /// the scroll region becomes the whole screen and the memory estimate is
    /// taken anew.
    pub open spec fn resize(self, width: usize, height: usize) -> Screen {
        if width == 0 || height == 0 || (width == self.width && height == self.height) {
            self
        } else {
            Screen {
                width,
                height,
                grid: refit(self.grid, self.width, width, height),
                cursor: Self::clamp_cursor(self.cursor, width, height),
                saved_cursor: Self::clamp_cursor(self.saved_cursor, width, height),
                tabs: default_tabs(width),
                scroll_top: 0,
                scroll_bottom: minus(height, 1),
                memory_usage: memory_estimate(width, height, self.history.len()),
                ..self
            }
        }
    }

    /// The screen with its memory estimate taken anew.
    pub open spec fn with_fresh_estimate(self) -> Screen {
        Screen {
            memory_usage: memory_estimate(self.width, self.height, self.history.len()),
            ..self
        }
    }

    /// Every cell blank, the cursor home, the memory estimate taken anew.
    pub open spec fn clear(self) -> Screen {
        Screen {
            grid: blank_grid(self.width, self.height),
            cursor: Cursor { x: 0, y: 0, ..self.cursor },
            memory_usage: memory_estimate(self.width, self.height, self.history.len()),
            ..self
        }
    }

    /// The scrollback cut to its newest rows, at most
    /// `trimmed_history_rows()` of them, and the memory estimate taken anew.
    pub open spec fn trim_memory(self) -> Screen {
        let kept = if self.history.len() > trimmed_history_rows() {
            self.history.subrange(
                self.history.len() - trimmed_history_rows(),
                self.history.len() as int,
            )
        } else {
            self.history
        };
        Screen {
            history: kept,
            memory_usage: memory_estimate(self.width, self.height, kept.len()),
            ..self
        }
    }

    /// One housekeeping step: the scrollback is trimmed where the memory
    /// estimate is over the threshold.
    pub open spec fn update(self) -> Screen {
        if self.memory_usage > memory_threshold() {
            self.trim_memory()
        } else {
            self
        }
    }

    /// All state as at the start, for the present size and scrollback
    /// capacity.
    pub open spec fn reset(self) -> Screen {
        Screen::initial(self.width, self.height, self.history_capacity)
    }
}

} // verus!
