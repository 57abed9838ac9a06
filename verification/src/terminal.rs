use vstd::prelude::*;
use crate::grid::{
    clear_cells,
    refit_grid,
    copy_row,
    delete_in_row,
    erase_in_row,
    lemma_shift_down_shape,
    lemma_shift_up_shape,
    lemma_update_keeps_shape,
    new_blank_grid,
    shift_rows_down,
    shift_rows_up,
};
use crate::text::chars_of;
use crate::tabs::{add_tab, next_tab, prev_tab, remove_tab};
use crate::history::{lemma_push_history_step, rows_view, History};
use crate::screen::{
    refit,
    row_delete_chars,
    row_erase,
    prev_tab_upto,
    tabs_with,
    tabs_without,
    color_for_char,
    default_tabs,
    grid_has_shape,
    lemma_memory_estimate_positive,
    memory_estimate,
    CELL_BYTES,
    TERMINAL_BYTES,
    shift_down,
    shift_up,
    minus,
    push_history,
    tabs_ordered,
    ClearMode,
    Row,
    Screen,
};

verus! {

/// An RGBA colour value: red, green, blue, alpha.
#[derive(Clone, Copy, Debug, PartialEq, Eq, Structural)]
pub struct Color(pub u8, pub u8, pub u8, pub u8);

/// One step of the 6x6x6 colour cube of the 256-colour palette.
pub open spec fn cube_level(step: int) -> int {
    if step == 0 {
        0
    } else {
        55 + 40 * step
    }
}

/// The colour that an index of the 256-colour palette stands for: the
/// sixteen named colours, the colour cube, then the grey ramp.
pub open spec fn ansi_color(index: u8) -> Color {
    if index == 0 {
        Color(0, 0, 0, 255)
    } else if index == 1 {
        Color(205, 0, 0, 255)
    } else if index == 2 {
        Color(0, 205, 0, 255)
    } else if index == 3 {
        Color(205, 205, 0, 255)
    } else if index == 4 {
        Color(0, 0, 238, 255)
    } else if index == 5 {
        Color(205, 0, 205, 255)
    } else if index == 6 {
        Color(0, 205, 205, 255)
    } else if index == 7 {
        Color(229, 229, 229, 255)
    } else if index == 8 {
        Color(127, 127, 127, 255)
    } else if index == 9 {
        Color(255, 0, 0, 255)
    } else if index == 10 {
        Color(0, 255, 0, 255)
    } else if index == 11 {
        Color(255, 255, 0, 255)
    } else if index == 12 {
        Color(92, 92, 255, 255)
    } else if index == 13 {
        Color(255, 0, 255, 255)
    } else if index == 14 {
        Color(0, 255, 255, 255)
    } else if index == 15 {
        Color(255, 255, 255, 255)
    } else if index < 232 {
        Color(
            cube_level((index - 16) / 36) as u8,
            cube_level(((index - 16) / 6) % 6) as u8,
            cube_level((index - 16) % 6) as u8,
            255,
        )
    } else {
        Color(
            (8 + 10 * (index - 232)) as u8,
            (8 + 10 * (index - 232)) as u8,
            (8 + 10 * (index - 232)) as u8,
            255,
        )
    }
}

fn cube_level_of(step: u8) -> (level: u8)
    requires
        step < 6,
    ensures
        level == cube_level(step as int),
{
    if step == 0 {
        0
    } else {
        55 + 40 * step
    }
}

impl Default for Color {
    /// The default colour is opaque white.
    fn default() -> (c: Self)
        ensures
            c == Color(255, 255, 255, 255),
    {
        Color(255, 255, 255, 255)
    }
}

impl Color {
    /// Opaque white, the default foreground.
    pub fn white() -> (c: Color)
        ensures
            c == Color(255, 255, 255, 255),
    {
        Color(255, 255, 255, 255)
    }

    /// Opaque black, the default background.
    pub fn black() -> (c: Color)
        ensures
            c == Color(0, 0, 0, 255),
    {
        Color(0, 0, 0, 255)
    }

    /// Resolves an index of the 256-colour palette to its colour.
    pub fn from_ansi_color(index: u8) -> (c: Color)
        ensures
            c == ansi_color(index),
    {
        if index < 16 {
            match index {
                0 => Color(0, 0, 0, 255),
                1 => Color(205, 0, 0, 255),
                2 => Color(0, 205, 0, 255),
                3 => Color(205, 205, 0, 255),
                4 => Color(0, 0, 238, 255),
                5 => Color(205, 0, 205, 255),
                6 => Color(0, 205, 205, 255),
                7 => Color(229, 229, 229, 255),
                8 => Color(127, 127, 127, 255),
                9 => Color(255, 0, 0, 255),
                10 => Color(0, 255, 0, 255),
                11 => Color(255, 255, 0, 255),
                12 => Color(92, 92, 255, 255),
                13 => Color(255, 0, 255, 255),
                14 => Color(0, 255, 255, 255),
                _ => Color(255, 255, 255, 255),
            }
        } else if index < 232 {
            let n: u8 = index - 16;
            Color(cube_level_of(n / 36), cube_level_of((n / 6) % 6), cube_level_of(n % 6), 255)
        } else {
            let g: u8 = 8 + 10 * (index - 232);
            Color(g, g, g, 255)
        }
    }
}

/// One character position of the screen.
#[derive(Clone, Copy, Debug, PartialEq, Eq, Structural)]
pub struct TerminalCell {
    pub character: char,
    pub foreground_color: Color,
    pub background_color: Color,
    pub bold: bool,
    pub italic: bool,
    pub underline: bool,
    pub strikethrough: bool,
    pub reverse: bool,
    pub blink: bool,
    pub dim: bool,
}

/// The cell of an empty position: a space, white on black, no style.
pub open spec fn blank_cell() -> TerminalCell {
    TerminalCell {
        character: ' ',
        foreground_color: Color(255, 255, 255, 255),
        background_color: Color(0, 0, 0, 255),
        bold: false,
        italic: false,
        underline: false,
        strikethrough: false,
        reverse: false,
        blink: false,
        dim: false,
    }
}

impl Default for TerminalCell {
    fn default() -> (cell: Self)
        ensures
            cell == blank_cell(),
    {
        TerminalCell {
            character: ' ',
            foreground_color: Color(255, 255, 255, 255),
            background_color: Color(0, 0, 0, 255),
            bold: false,
            italic: false,
            underline: false,
            strikethrough: false,
            reverse: false,
            blink: false,
            dim: false,
        }
    }
}

/// The style flags that the next written character will carry.
#[derive(Clone, Copy, Debug, PartialEq, Eq, Structural)]
pub struct Attributes {
    pub bold: bool,
    pub dim: bool,
    pub italic: bool,
    pub underline: bool,
    pub blink: bool,
    pub reverse: bool,
    pub strikethrough: bool,
}

/// No style flag set.
pub open spec fn plain_attributes() -> Attributes {
    Attributes {
        bold: false,
        dim: false,
        italic: false,
        underline: false,
        blink: false,
        reverse: false,
        strikethrough: false,
    }
}

impl Default for Attributes {
    fn default() -> (a: Self)
        ensures
            a == plain_attributes(),
    {
        Attributes {
            bold: false,
            dim: false,
            italic: false,
            underline: false,
            blink: false,
            reverse: false,
            strikethrough: false,
        }
    }
}

/// How the cursor is drawn.
#[derive(Clone, Copy, Debug, PartialEq, Eq, Structural)]
pub enum CursorShape {
    Block,
    Underline,
    Bar,
}

/// The cursor: a column, a row, and how it is shown.
#[derive(Clone, Copy, Debug, PartialEq, Eq, Structural)]
pub struct Cursor {
    pub x: usize,
    pub y: usize,
    pub visible: bool,
    pub shape: CursorShape,
}

/// The cursor of a fresh screen: top left, visible, a block.
pub open spec fn home_cursor() -> Cursor {
    Cursor { x: 0, y: 0, visible: true, shape: CursorShape::Block }
}

impl Default for Cursor {
    fn default() -> (c: Self)
        ensures
            c == home_cursor(),
    {
        Cursor { x: 0, y: 0, visible: true, shape: CursorShape::Block }
    }
}

/// The switches that mode-set and mode-reset sequences toggle.
#[derive(Clone, Copy, Debug, PartialEq, Eq, Structural)]
pub struct Modes {
    pub wraparound: bool,
    pub origin_mode: bool,
    pub insert_mode: bool,
    pub newline_mode: bool,
    pub auto_repeat: bool,
    pub application_cursor: bool,
}

/// The modes of a fresh screen: wraparound and auto-repeat on, the rest off.
pub open spec fn initial_modes() -> Modes {
    Modes {
        wraparound: true,
        origin_mode: false,
        insert_mode: false,
        newline_mode: false,
        auto_repeat: true,
        application_cursor: false,
    }
}

impl Default for Modes {
    fn default() -> (m: Self)
        ensures
            m == initial_modes(),
    {
        Modes {
            wraparound: true,
            origin_mode: false,
            insert_mode: false,
            newline_mode: false,
            auto_repeat: true,
            application_cursor: false,
        }
    }
}

/// A terminal: the visible grid, the cursor, the modes and the scrollback.
pub struct Terminal {
    pub(crate) buffer: Vec<Vec<TerminalCell>>,
    pub(crate) width: usize,
    pub(crate) height: usize,
    pub(crate) cursor: Cursor,
    pub(crate) saved_cursor: Cursor,
    pub(crate) modes: Modes,
    pub(crate) scroll_top: usize,
    pub(crate) scroll_bottom: usize,
    pub(crate) active_charset: u8,
    pub(crate) tabs: Vec<usize>,
    pub(crate) current_fg: Color,
    pub(crate) current_bg: Color,
    pub(crate) current_attrs: Attributes,
    pub(crate) title: String,
    pub(crate) icon_title: String,
    pub(crate) working_directory: String,
    pub(crate) history: History,
    pub(crate) memory_usage: usize,
}

/// The scrollback capacity of a terminal made without naming one.
pub const DEFAULT_HISTORY_CAPACITY: usize = 1000;

/// The estimate of `memory_estimate`, computed.
pub fn estimate_memory(width: usize, height: usize, history_rows: usize) -> (m: usize)
    requires
        width >= 1,
    ensures
        m == memory_estimate(width, height, history_rows as nat),
        m >= TERMINAL_BYTES,
{
    let ghost total = (height + history_rows) * width * CELL_BYTES + TERMINAL_BYTES;
    proof {
        lemma_memory_estimate_positive(width, height, history_rows as nat);
    }
    let rows = match height.checked_add(history_rows) {
        Some(v) => v,
        None => {
            assert(total > usize::MAX) by (nonlinear_arith)
                requires
                    height + history_rows > usize::MAX,
                    width >= 1,
                    total == (height + history_rows) * width * 20 + 256,
            ;
            return usize::MAX;
        },
    };
    let cells = match rows.checked_mul(width) {
        Some(v) => v,
        None => {
            assert(total > usize::MAX) by (nonlinear_arith)
                requires
                    rows * width > usize::MAX,
                    rows == height + history_rows,
                    total == (height + history_rows) * width * 20 + 256,
            ;
            return usize::MAX;
        },
    };
    let bytes = match cells.checked_mul(CELL_BYTES) {
        Some(v) => v,
        None => {
            assert(total > usize::MAX) by (nonlinear_arith)
                requires
                    cells * 20 > usize::MAX,
                    cells == (height + history_rows) * width,
                    total == (height + history_rows) * width * 20 + 256,
            ;
            return usize::MAX;
        },
    };
    match bytes.checked_add(TERMINAL_BYTES) {
        Some(v) => {
            assert(v == total) by (nonlinear_arith)
                requires
                    v == bytes + 256,
                    bytes == cells * 20,
                    cells == (height + history_rows) * width,
                    total == (height + history_rows) * width * 20 + 256,
            ;
            v
        },
        None => {
            assert(total > usize::MAX) by (nonlinear_arith)
                requires
                    bytes + 256 > usize::MAX,
                    bytes == cells * 20,
                    cells == (height + history_rows) * width,
                    total == (height + history_rows) * width * 20 + 256,
            ;
            usize::MAX
        },
    }
}

/// The tab stops of a fresh screen of `width` columns.
pub fn make_default_tabs(width: usize) -> (tabs: Vec<usize>)
    requires
        width >= 1,
    ensures
        tabs@ == default_tabs(width),
        tabs_ordered(tabs@, width),
{
    let count: usize = (width - 1) / 8;
    let mut tabs: Vec<usize> = Vec::new();
    let mut i: usize = 0;
    while i < count
        invariant
            i <= count,
            count == (width - 1) / 8,
            tabs@.len() == i,
            forall|j: int| 0 <= j < i ==> tabs@[j] == (j + 1) * 8,
        decreases count - i,
    {
        tabs.push((i + 1) * 8);
        i += 1;
    }
    assert(tabs@ =~= default_tabs(width));
    tabs
}

/// Appends copies of the first `k` rows of `grid` to `history`.
fn push_rows(history: &mut History, grid: &Vec<Vec<TerminalCell>>, k: usize)
    requires
        old(history).wf(),
        k <= grid@.len(),
    ensures
        final(history).wf(),
        final(history).capacity_spec() == old(history).capacity_spec(),
        final(history)@ == push_history(
            old(history)@,
            rows_view(*grid).subrange(0, k as int),
            old(history).capacity_spec(),
        ),
{
    let ghost before = history@;
    let ghost cap = history.capacity_spec();
    let mut i: usize = 0;
    assert(rows_view(*grid).subrange(0, 0) =~= Seq::<Row>::empty());
    assert(before + Seq::<Row>::empty() =~= before);
    assert(history@ == push_history(before, rows_view(*grid).subrange(0, 0), cap)) by {
        reveal(push_history);
    }
    while i < k
        invariant
            i <= k <= grid@.len(),
            history.wf(),
            history.capacity_spec() == cap,
            history@ == push_history(before, rows_view(*grid).subrange(0, i as int), cap),
        decreases k - i,
    {
        let row = copy_row(&grid[i]);
        history.push(row);
        proof {
            lemma_push_history_step(before, rows_view(*grid).subrange(0, i as int), row@, cap);
            assert(rows_view(*grid).subrange(0, i as int).push(row@) =~= rows_view(*grid).subrange(
                0,
                i + 1,
            ));
        }
        i += 1;
    }
}

impl Terminal {
    /// The state of this terminal as a mathematical value.
    pub open(crate) spec fn view(&self) -> Screen {
        Screen {
            width: self.width,
            height: self.height,
            grid: rows_view(self.buffer),
            cursor: self.cursor,
            saved_cursor: self.saved_cursor,
            modes: self.modes,
            scroll_top: self.scroll_top,
            scroll_bottom: self.scroll_bottom,
            active_charset: self.active_charset,
            tabs: self.tabs@,
            fg: self.current_fg,
            bg: self.current_bg,
            attrs: self.current_attrs,
            title: self.title@,
            icon_title: self.icon_title@,
            working_directory: self.working_directory@,
            history: self.history@,
            history_capacity: self.history.capacity_spec(),
            memory_usage: self.memory_usage,
        }
    }

    /// The invariant that every operation of a terminal keeps.
    pub open spec fn wf(&self) -> bool {
        self@.wf()
    }

    /// A terminal of 80 columns and 24 rows.
    pub fn new() -> (t: Terminal)
        ensures
            t.wf(),
            t@ == Screen::initial(80, 24, DEFAULT_HISTORY_CAPACITY),
    {
        Terminal::with_size(80, 24)
    }

    /// A terminal of the given size: every cell blank, the cursor at the
    /// top left, the scroll region the whole screen.
    pub fn with_size(width: usize, height: usize) -> (t: Terminal)
        requires
            width >= 1,
            height >= 1,
        ensures
            t.wf(),
            t@ == Screen::initial(width, height, DEFAULT_HISTORY_CAPACITY),
    {
        Terminal::with_history_capacity(width, height, DEFAULT_HISTORY_CAPACITY)
    }

    /// A terminal of the given size whose scrollback retains up to
    /// `capacity` rows.
    pub fn with_history_capacity(width: usize, height: usize, capacity: usize) -> (t: Terminal)
        requires
            width >= 1,
            height >= 1,
        ensures
            t.wf(),
            t@ == Screen::initial(width, height, capacity),
    {
        let t = Terminal {
            buffer: new_blank_grid(width, height),
            width,
            height,
            cursor: Cursor::default(),
            saved_cursor: Cursor::default(),
            modes: Modes::default(),
            scroll_top: 0,
            scroll_bottom: height - 1,
            active_charset: 0,
            tabs: make_default_tabs(width),
            current_fg: Color::white(),
            current_bg: Color::black(),
            current_attrs: Attributes::default(),
            title: String::new(),
            icon_title: String::new(),
            working_directory: String::new(),
            history: History::new(capacity),
            memory_usage: estimate_memory(width, height, 0),
        };
        t
    }

    /// The visible grid, row by row.
    pub fn get_buffer(&self) -> (buffer: &Vec<Vec<TerminalCell>>)
        ensures
            rows_view(*buffer) == self@.grid,
    {
        &self.buffer
    }

    /// The cursor's column and row.
    pub fn get_cursor_position(&self) -> (position: (usize, usize))
        ensures
            position == (self@.cursor.x, self@.cursor.y),
    {
        (self.cursor.x, self.cursor.y)
    }

    /// The cursor with its visibility and shape.
    pub fn get_cursor(&self) -> (cursor: Cursor)
        ensures
            cursor == self@.cursor,
    {
        self.cursor
    }

    /// The memory estimate as it was last taken.
    pub fn get_memory_usage(&self) -> (usage: usize)
        ensures
            usage == self@.memory_usage,
    {
        self.memory_usage
    }

    /// The width and height of the screen.
    pub fn get_dimensions(&self) -> (dimensions: (usize, usize))
        ensures
            dimensions == (self@.width, self@.height),
    {
        (self.width, self.height)
    }

    /// The number of rows in the scrollback.
    pub fn get_history_size(&self) -> (n: usize)
        ensures
            n == self@.history.len(),
    {
        self.history.len()
    }

    /// The scrollback row at `index`, counted from the oldest, if there is
    /// one.
    pub fn get_line_from_history(&self, index: usize) -> (row: Option<&Vec<TerminalCell>>)
        ensures
            index < self@.history.len() ==> row is Some && row->0@ == self@.history[index as int],
            index >= self@.history.len() ==> row is None,
    {
        self.history.get(index)
    }

    /// The cell at column `x` of row `y`, if there is one.
    pub fn get_cell_at(&self, x: usize, y: usize) -> (cell: Option<&TerminalCell>)
        ensures
            match cell {
                Some(c) => self@.cell_at(x, y) == Some(*c),
                None => self@.cell_at(x, y) is None,
            },
    {
        if y < self.buffer.len() {
            if x < self.buffer[y].len() {
                return Some(&self.buffer[y][x]);
            }
        }
        None
    }

    /// Puts `cell` at column `x` of row `y`. Returns whether there is such
    /// a position; where there is none, nothing changes.
    pub fn set_cell_at(&mut self, x: usize, y: usize, cell: TerminalCell) -> (done: bool)
        requires
            old(self).wf(),
        ensures
            final(self).wf(),
            done == (x < old(self)@.width && y < old(self)@.height),
            final(self)@ == old(self)@.put_cell(x, y, cell),
    {
        if y < self.height && x < self.width {
            let ghost before = self@;
            self.buffer[y][x] = cell;
            proof {
                assert(self@.grid =~= before.grid.update(y as int, before.grid[y as int].update(x as int, cell)));
                lemma_update_keeps_shape(before.grid, before.width, before.height, y as int, before.grid[y as int].update(x as int, cell));
            }
            true
        } else {
            false
        }
    }

    /// Appends copies of the top `k` rows of the grid to the scrollback.
    fn record_rows(&mut self, k: usize)
        requires
            old(self).wf(),
            k <= old(self)@.height,
        ensures
            final(self).wf(),
            final(self)@.wf(),
            final(self)@ == (Screen {
                history: push_history(
                    old(self)@.history,
                    old(self)@.grid.subrange(0, k as int),
                    old(self)@.history_capacity,
                ),
                ..old(self)@
            }),
    {
        push_rows(&mut self.history, &self.buffer, k);
    }

    /// Moves the rows `first..=last` of the grid up by `k`.
    fn shift_band_up(&mut self, first: usize, last: usize, k: usize)
        requires
            old(self).wf(),
            first <= last < old(self)@.height,
            k <= last - first + 1,
        ensures
            final(self).wf(),
            final(self)@ == (Screen {
                grid: shift_up(old(self)@.grid, first as int, last as int, k as int, old(self)@.width),
                ..old(self)@
            }),
    {
        let ghost before = self@;
        shift_rows_up(&mut self.buffer, first, last, k, self.width);
        proof {
            lemma_shift_up_shape(before.grid, first as int, last as int, k as int, before.width, before.height);
        }
    }

    /// Moves the rows `first..=last` of the grid down by `k`.
    fn shift_band_down(&mut self, first: usize, last: usize, k: usize)
        requires
            old(self).wf(),
            first <= last < old(self)@.height,
            k <= last - first + 1,
        ensures
            final(self).wf(),
            final(self)@ == (Screen {
                grid: shift_down(old(self)@.grid, first as int, last as int, k as int, old(self)@.width),
                ..old(self)@
            }),
    {
        let ghost before = self@;
        shift_rows_down(&mut self.buffer, first, last, k, self.width);
        proof {
            lemma_shift_down_shape(before.grid, first as int, last as int, k as int, before.width, before.height);
        }
    }

    /// Moves the rows of the scroll region up by `n`, at most by the
    /// region's height. Rows that leave the top of a region spanning the
    /// whole screen go to the scrollback.
    pub fn scroll_up(&mut self, n: usize)
        requires
            old(self).wf(),
        ensures
            final(self).wf(),
            final(self)@ == old(self)@.scroll_up(n),
    {
        let len: usize = self.scroll_bottom - self.scroll_top + 1;
        let k: usize = if n < len { n } else { len };
        if self.scroll_top == 0 && self.scroll_bottom + 1 == self.height {
            self.scroll_up_full(k);
        } else {
            self.shift_band_up(self.scroll_top, self.scroll_bottom, k);
        }
    }

    fn scroll_up_full(&mut self, k: usize)
        requires
            old(self).wf(),
            old(self)@.region_is_full(),
            k <= old(self)@.height,
        ensures
            final(self).wf(),
            final(self)@ == (Screen {
                grid: shift_up(old(self)@.grid, 0, old(self)@.height - 1, k as int, old(self)@.width),
                history: push_history(
                    old(self)@.history,
                    old(self)@.grid.subrange(0, k as int),
                    old(self)@.history_capacity,
                ),
                ..old(self)@
            }),
    {
        self.record_rows(k);
        self.shift_band_up(0, self.height - 1, k);
    }

    /// Moves the rows of the scroll region down by `n`, at most by the
    /// region's height.
    pub fn scroll_down(&mut self, n: usize)
        requires
            old(self).wf(),
        ensures
            final(self).wf(),
            final(self)@ == old(self)@.scroll_down(n),
    {
        let len: usize = self.scroll_bottom - self.scroll_top + 1;
        let k: usize = if n < len { n } else { len };
        self.shift_band_down(self.scroll_top, self.scroll_bottom, k);
    }

    /// Opens `n` blank rows at the cursor's row, inside the scroll region.
    pub fn insert_lines(&mut self, n: usize)
        requires
            old(self).wf(),
        ensures
            final(self).wf(),
            final(self)@ == old(self)@.insert_lines(n),
    {
        if self.scroll_top <= self.cursor.y && self.cursor.y <= self.scroll_bottom {
            let len: usize = self.scroll_bottom - self.cursor.y + 1;
            let k: usize = if n < len { n } else { len };
            self.shift_band_down(self.cursor.y, self.scroll_bottom, k);
        }
    }

    /// Removes `n` rows at the cursor's row, inside the scroll region.
    pub fn delete_lines(&mut self, n: usize)
        requires
            old(self).wf(),
        ensures
            final(self).wf(),
            final(self)@ == old(self)@.delete_lines(n),
    {
        if self.scroll_top <= self.cursor.y && self.cursor.y <= self.scroll_bottom {
            let len: usize = self.scroll_bottom - self.cursor.y + 1;
            let k: usize = if n < len { n } else { len };
            self.shift_band_up(self.cursor.y, self.scroll_bottom, k);
        }
    }

    /// Moves the cursor down one row, scrolling at the bottom of the scroll
    /// region.
    pub fn line_feed(&mut self)
        requires
            old(self).wf(),
        ensures
            final(self).wf(),
            final(self)@ == old(self)@.line_feed(),
    {
        if self.cursor.y == self.scroll_bottom {
            self.scroll_up(1);
        } else if self.cursor.y + 1 < self.height {
            self.cursor.y = self.cursor.y + 1;
        }
    }

    /// Moves the cursor up one row, scrolling at the top of the scroll
    /// region.
    pub fn reverse_index(&mut self)
        requires
            old(self).wf(),
        ensures
            final(self).wf(),
            final(self)@ == old(self)@.reverse_index(),
    {
        if self.cursor.y == self.scroll_top {
            self.scroll_down(1);
        } else {
            self.cursor.y = self.cursor.y.saturating_sub(1);
        }
    }

    /// Moves the cursor on after a character of `w` columns was written.
    pub fn advance(&mut self, w: usize)
        requires
            old(self).wf(),
        ensures
            final(self).wf(),
            final(self)@ == old(self)@.advance(w),
    {
        if w >= self.width - self.cursor.x {
            if self.modes.wraparound {
                self.cursor.x = 0;
                self.line_feed();
            } else {
                self.cursor.x = self.width - 1;
            }
        } else {
            self.cursor.x = self.cursor.x + w;
        }
    }
}

/// The cursor `c` kept inside a screen of the given size.
pub fn clamp_cursor_to(c: Cursor, width: usize, height: usize) -> (r: Cursor)
    requires
        width >= 1,
        height >= 1,
    ensures
        r == Screen::clamp_cursor(c, width, height),
        r.x < width,
        r.y < height,
{
    Cursor {
        x: if c.x < width - 1 { c.x } else { width - 1 },
        y: if c.y < height - 1 { c.y } else { height - 1 },
        visible: c.visible,
        shape: c.shape,
    }
}

/// The highlight colour of a plain character.
pub fn get_color_for_char(c: char) -> (color: Color)
    ensures
        color == color_for_char(c),
{
    if c == '=' || c == '!' || c == '&' || c == '|' || c == '<' || c == '>' {
        Color(100, 200, 255, 255)
    } else if '0' <= c && c <= '9' {
        Color(255, 200, 100, 255)
    } else if ('A' <= c && c <= 'Z') || ('a' <= c && c <= 'z') {
        Color(200, 255, 200, 255)
    } else {
        Color(255, 255, 255, 255)
    }
}

impl Terminal {
    /// The cell that a character written now gets from the current
    /// colours and style.
    pub fn pen_cell(&self, c: char) -> (cell: TerminalCell)
        ensures
            cell == self@.pen_cell(c),
    {
        TerminalCell {
            character: c,
            foreground_color: if self.current_attrs.reverse {
                self.current_bg
            } else {
                self.current_fg
            },
            background_color: if self.current_attrs.reverse {
                self.current_fg
            } else {
                self.current_bg
            },
            bold: self.current_attrs.bold,
            italic: self.current_attrs.italic,
            underline: self.current_attrs.underline,
            strikethrough: self.current_attrs.strikethrough,
            reverse: false,
            blink: self.current_attrs.blink,
            dim: self.current_attrs.dim,
        }
    }

    /// Moves the cursor to where a character of `w` columns fits.
    fn make_room(&mut self, w: usize)
        requires
            old(self).wf(),
        ensures
            final(self).wf(),
            final(self)@ == old(self)@.make_room(w),
    {
        if w > self.width - self.cursor.x {
            if self.modes.wraparound {
                self.cursor.x = 0;
                self.line_feed();
            } else {
                self.cursor.x = self.width.saturating_sub(w);
            }
        }
    }

    /// Prints the character `c`, whose display width is `w` columns, with
    /// the current colours and style, and moves the cursor on. The null
    /// character and characters of width zero are dropped.
    pub fn print_with_width(&mut self, c: char, w: usize)
        requires
            old(self).wf(),
        ensures
            final(self).wf(),
            final(self)@ == old(self)@.print(c, w),
    {
        if c == '\0' || w == 0 {
            return ;
        }
        self.make_room(w);
        let cell = self.pen_cell(c);
        let x = self.cursor.x;
        let y = self.cursor.y;
        self.set_cell_at(x, y, cell);
        self.advance(w);
    }

    /// Writes the plain character `c` at the cursor with its highlight
    /// colour and moves one column on.
    fn put_plain(&mut self, c: char)
        requires
            old(self).wf(),
        ensures
            final(self).wf(),
            final(self)@ == old(self)@.put_plain(c),
    {
        let cell = TerminalCell {
            character: c,
            foreground_color: get_color_for_char(c),
            background_color: Color(0, 0, 0, 255),
            bold: false,
            italic: false,
            underline: false,
            strikethrough: false,
            reverse: false,
            blink: false,
            dim: false,
        };
        let x = self.cursor.x;
        let y = self.cursor.y;
        self.set_cell_at(x, y, cell);
        self.advance(1);
    }

    /// Writes `n` spaces.
    fn put_spaces(&mut self, n: usize)
        requires
            old(self).wf(),
        ensures
            final(self).wf(),
            final(self)@ == old(self)@.put_spaces(n as nat),
    {
        let mut i: usize = 0;
        while i < n
            invariant
                i <= n,
                self.wf(),
                self@.put_spaces((n - i) as nat) == old(self)@.put_spaces(n as nat),
            decreases n - i,
        {
            self.put_plain(' ');
            i += 1;
        }
    }

    /// Steps the cursor back one column and blanks the cell there; does
    /// nothing on the first column.
    fn rub_out(&mut self)
        requires
            old(self).wf(),
        ensures
            final(self).wf(),
            final(self)@ == old(self)@.write_char('\x08'),
    {
        if self.cursor.x > 0 {
            self.cursor.x = self.cursor.x - 1;
            let x = self.cursor.x;
            let y = self.cursor.y;
            self.set_cell_at(x, y, TerminalCell::default());
        }
    }

    /// Writes one character of plain text. A newline starts the next row,
    /// scrolling at the bottom of the scroll region; a carriage return goes
    /// to the first column; a tab writes spaces up to the next multiple
    /// of eight columns; a backspace steps back and blanks; every other
    /// character is written with its highlight colour.
    pub fn write_char(&mut self, ch: char)
        requires
            old(self).wf(),
        ensures
            final(self).wf(),
            final(self)@ == old(self)@.write_char(ch),
    {
        if ch == '\n' {
            self.cursor.x = 0;
            self.line_feed();
        } else if ch == '\r' {
            self.cursor.x = 0;
        } else if ch == '\t' {
            let x = self.cursor.x;
            let room: usize = self.width - x;
            let step: usize = 8 - x % 8;
            assert((x / 8 + 1) * 8 - x == 8 - x % 8);
            let n: usize = if step <= room { step } else { room };
            self.put_spaces(n);
        } else if ch == '\x08' {
            self.rub_out();
        } else {
            self.put_plain(ch);
        }
    }

    /// Writes the characters of `text` in order, as `write_char` does.
    pub fn write_text(&mut self, text: &str)
        requires
            old(self).wf(),
        ensures
            final(self).wf(),
            final(self)@ == old(self)@.write_text(text@),
    {
        let chars = chars_of(text);
        let mut i: usize = 0;
        while i < chars.len()
            invariant
                i <= chars@.len(),
                chars@ == text@,
                self.wf(),
                self@ == old(self)@.write_text(chars@.subrange(0, i as int)),
            decreases chars@.len() - i,
        {
            let ghost upto = chars@.subrange(0, i + 1);
            assert(upto.drop_last() =~= chars@.subrange(0, i as int));
            self.write_char(chars[i]);
            i += 1;
        }
        assert(chars@.subrange(0, chars@.len() as int) =~= chars@);
    }

    /// Blanks every cell, moves the cursor home and takes the memory
    /// estimate anew.
    pub fn clear(&mut self)
        requires
            old(self).wf(),
        ensures
            final(self).wf(),
            final(self)@ == old(self)@.clear(),
    {
        self.buffer = new_blank_grid(self.width, self.height);
        self.cursor.x = 0;
        self.cursor.y = 0;
        self.calculate_memory_usage();
    }

    /// Blanks every cell; the cursor stays.
    pub fn clear_screen(&mut self)
        requires
            old(self).wf(),
        ensures
            final(self).wf(),
            final(self)@ == old(self)@.clear_screen(),
    {
        self.buffer = new_blank_grid(self.width, self.height);
    }

    /// Blanks the cells that `mode` names, relative to the cursor.
    pub fn clear_region(&mut self, mode: ClearMode)
        requires
            old(self).wf(),
        ensures
            final(self).wf(),
            final(self)@ == old(self)@.clear_region(mode),
    {
        let ghost before = self@;
        clear_cells(&mut self.buffer, mode, self.cursor.x, self.cursor.y);
        assert(grid_has_shape(self@.grid, before.width, before.height)) by {
            assert forall|r: int| 0 <= r < before.height implies (#[trigger] self@.grid[r]).len()
                == before.width by {
                assert(before.grid[r].len() == before.width);
            }
        }
    }

    /// Takes the memory estimate anew.
    fn calculate_memory_usage(&mut self)
        requires
            old(self).wf(),
        ensures
            final(self).wf(),
            final(self)@ == old(self)@.with_fresh_estimate(),
    {
        self.memory_usage = estimate_memory(self.width, self.height, self.history.len());
    }

    /// Cuts the scrollback to its newest rows and takes the memory
    /// estimate anew.
    pub fn optimize_memory(&mut self)
        requires
            old(self).wf(),
        ensures
            final(self).wf(),
            final(self)@ == old(self)@.trim_memory(),
    {
        self.history.trim_to(1000);
        self.calculate_memory_usage();
    }

    /// One housekeeping step: trims the scrollback where the memory
    /// estimate is over the threshold.
    pub fn update(&mut self)
        requires
            old(self).wf(),
        ensures
            final(self).wf(),
            final(self)@ == old(self)@.update(),
    {
        if self.memory_usage > 104857600 {
            self.optimize_memory();
        }
    }

    /// Removes `n` cells at the cursor; the rest of the row moves left.
    pub fn delete_chars(&mut self, n: usize)
        requires
            old(self).wf(),
        ensures
            final(self).wf(),
            final(self)@ == old(self)@.delete_chars(n),
    {
        let ghost before = self@;
        let room: usize = self.width - self.cursor.x;
        let k: usize = if n < room { n } else { room };
        let x = self.cursor.x;
        let y = self.cursor.y;
        delete_in_row(&mut self.buffer[y], x, k);
        proof {
            let row = row_delete_chars(before.grid[y as int], x as int, k as int);
            assert(self@.grid =~= before.grid.update(y as int, row));
            lemma_update_keeps_shape(before.grid, before.width, before.height, y as int, row);
        }
    }

    /// Blanks `n` cells from the cursor on, as far as the row goes.
    pub fn erase_chars(&mut self, n: usize)
        requires
            old(self).wf(),
        ensures
            final(self).wf(),
            final(self)@ == old(self)@.erase_chars(n),
    {
        let ghost before = self@;
        let x = self.cursor.x;
        let y = self.cursor.y;
        let reach: usize = x.saturating_add(n);
        let end: usize = if reach < self.width { reach } else { self.width };
        erase_in_row(&mut self.buffer[y], x, end);
        proof {
            let row = row_erase(before.grid[y as int], x as int, end as int);
            assert(self@.grid =~= before.grid.update(y as int, row));
            lemma_update_keeps_shape(before.grid, before.width, before.height, y as int, row);
        }
    }

    /// Moves the cursor to the next tab stop, `n` times; where there is no
    /// further stop, to the last column.
    pub fn tab_forward(&mut self, n: usize)
        requires
            old(self).wf(),
        ensures
            final(self).wf(),
            final(self)@ == old(self)@.with_cursor_x(
                old(self)@.tabs_forward_from(old(self)@.cursor.x, n as nat),
            ),
    {
        let ghost before = self@;
        let mut x: usize = self.cursor.x;
        let mut i: usize = 0;
        while i < n
            invariant
                i <= n,
                x < self.width,
                self@ == before,
                before.wf(),
                before.tabs_forward_from(x, (n - i) as nat) == before.tabs_forward_from(
                    before.cursor.x,
                    n as nat,
                ),
            decreases n - i,
        {
            match next_tab(&self.tabs, x) {
                Some(t) => {
                    x = if t < self.width - 1 { t } else { self.width - 1 };
                    i += 1;
                },
                None => {
                    x = self.width - 1;
                    i = n;
                    assert(before.tabs_forward_from(x, 0) == x);
                },
            }
        }
        self.cursor.x = x;
    }

    /// Moves the cursor to the previous tab stop, `n` times; where there
    /// is no earlier stop, to the first column.
    pub fn tab_backward(&mut self, n: usize)
        requires
            old(self).wf(),
        ensures
            final(self).wf(),
            final(self)@ == old(self)@.with_cursor_x(
                old(self)@.tabs_backward_from(old(self)@.cursor.x, n as nat),
            ),
    {
        let ghost before = self@;
        let mut x: usize = self.cursor.x;
        let mut i: usize = 0;
        while i < n
            invariant
                i <= n,
                x < self.width,
                self@ == before,
                before.wf(),
                before.tabs_backward_from(x, (n - i) as nat) == before.tabs_backward_from(
                    before.cursor.x,
                    n as nat,
                ),
            decreases n - i,
        {
            match prev_tab(&self.tabs, x) {
                Some(t) => {
                    assert(t < x) by {
                        lemma_prev_tab_less(before.tabs, x, before.tabs.len() as int);
                    }
                    x = t;
                    i += 1;
                },
                None => {
                    x = 0;
                    i = n;
                    assert(before.tabs_backward_from(x, 0) == x);
                },
            }
        }
        self.cursor.x = x;
    }

    /// Sets a tab stop at the cursor's column.
    pub fn set_tab_stop(&mut self)
        requires
            old(self).wf(),
        ensures
            final(self).wf(),
            final(self)@ == (Screen { tabs: tabs_with(old(self)@.tabs, old(self)@.cursor.x), ..old(self)@ }),
    {
        add_tab(&mut self.tabs, self.cursor.x, self.width);
    }

    /// Removes the tab stop at the cursor's column, if there is one.
    pub fn clear_tab_stop(&mut self)
        requires
            old(self).wf(),
        ensures
            final(self).wf(),
            final(self)@ == (Screen {
                tabs: tabs_without(old(self)@.tabs, old(self)@.cursor.x),
                ..old(self)@
            }),
    {
        remove_tab(&mut self.tabs, self.cursor.x, self.width);
    }

    /// Removes every tab stop.
    pub fn clear_all_tab_stops(&mut self)
        requires
            old(self).wf(),
        ensures
            final(self).wf(),
            final(self)@ == (Screen { tabs: Seq::empty(), ..old(self)@ }),
    {
        self.tabs.clear();
    }

    /// Moves the cursor to column `x` of row `y`, kept inside the screen.
    /// With origin mode on, rows count from the top of the scroll region.
    pub fn move_cursor_to(&mut self, x: usize, y: usize)
        requires
            old(self).wf(),
        ensures
            final(self).wf(),
            final(self)@ == old(self)@.move_cursor_to(x, y),
    {
        let row: usize = if self.modes.origin_mode {
            let r: usize = self.scroll_top.saturating_add(y);
            if r < self.scroll_bottom { r } else { self.scroll_bottom }
        } else {
            if y < self.height - 1 { y } else { self.height - 1 }
        };
        self.cursor.x = if x < self.width - 1 { x } else { self.width - 1 };
        self.cursor.y = row;
    }

    /// Sets the scroll region from the one-based rows `top` and `bottom`
    /// and moves the cursor home. A region of less than two rows gives the
    /// whole screen.
    pub fn set_margins(&mut self, top: usize, bottom: usize)
        requires
            old(self).wf(),
        ensures
            final(self).wf(),
            final(self)@ == old(self)@.set_margins(top, bottom),
    {
        let last: usize = self.height - 1;
        let t0: usize = top.saturating_sub(1);
        let b0: usize = bottom.saturating_sub(1);
        let t: usize = if t0 < last { t0 } else { last };
        let b: usize = if b0 < last { b0 } else { last };
        let first: usize = if t >= b { 0 } else { t };
        let end: usize = if t >= b { last } else { b };
        let row: usize = if self.modes.origin_mode { first } else { 0 };
        self.scroll_top = first;
        self.scroll_bottom = end;
        self.cursor = Cursor { x: 0, y: row, visible: self.cursor.visible, shape: self.cursor.shape };
    }

    /// Remembers the cursor.
    pub fn save_cursor(&mut self)
        requires
            old(self).wf(),
        ensures
            final(self).wf(),
            final(self)@ == (Screen { saved_cursor: old(self)@.cursor, ..old(self)@ }),
    {
        self.saved_cursor = self.cursor;
    }

    /// Puts the cursor back where it was last remembered.
    pub fn restore_cursor(&mut self)
        requires
            old(self).wf(),
        ensures
            final(self).wf(),
            final(self)@ == (Screen { cursor: old(self)@.saved_cursor, ..old(self)@ }),
    {
        self.cursor = self.saved_cursor;
    }

    /// Changes the size of the screen. A zero width or height, and the
    /// present size, change nothing. Otherwise the content stays at the top
    /// left, cut or padded with blanks; the cursor is kept inside; the tab
    /// stops are set anew at every eighth column; the scroll region becomes
    /// the whole screen.
    pub fn resize(&mut self, new_width: usize, new_height: usize)
        requires
            old(self).wf(),
        ensures
            final(self).wf(),
            final(self)@ == old(self)@.resize(new_width, new_height),
    {
        let same = new_width == self.width && new_height == self.height;
        if new_width != 0 && new_height != 0 && !same {
            self.resize_to(new_width, new_height);
        }
    }

    /// The resize to a new size that is not zero.
    fn resize_to(&mut self, new_width: usize, new_height: usize)
        requires
            old(self).wf(),
            new_width >= 1,
            new_height >= 1,
        ensures
            final(self).wf(),
            final(self)@ == (Screen {
                width: new_width,
                height: new_height,
                grid: refit(old(self)@.grid, old(self)@.width, new_width, new_height),
                cursor: Screen::clamp_cursor(old(self)@.cursor, new_width, new_height),
                saved_cursor: Screen::clamp_cursor(old(self)@.saved_cursor, new_width, new_height),
                tabs: default_tabs(new_width),
                scroll_top: 0,
                scroll_bottom: minus(new_height, 1),
                memory_usage: memory_estimate(new_width, new_height, old(self)@.history.len()),
                ..old(self)@
            }),
    {
        self.reshape(new_width, new_height);
        self.calculate_memory_usage();
    }

    /// The resize proper, without the memory estimate.
    fn reshape(&mut self, new_width: usize, new_height: usize)
        requires
            old(self).wf(),
            new_width >= 1,
            new_height >= 1,
        ensures
            final(self).wf(),
            final(self)@ == (Screen {
                width: new_width,
                height: new_height,
                grid: refit(old(self)@.grid, old(self)@.width, new_width, new_height),
                cursor: Screen::clamp_cursor(old(self)@.cursor, new_width, new_height),
                saved_cursor: Screen::clamp_cursor(old(self)@.saved_cursor, new_width, new_height),
                tabs: default_tabs(new_width),
                scroll_top: 0,
                scroll_bottom: minus(new_height, 1),
                ..old(self)@
            }),
    {
        let ghost before = self@;
        assert forall|r: int| 0 <= r < self.buffer@.len() implies (#[trigger] self.buffer@[r])@.len()
            == self.width by {
            assert(before.grid[r].len() == before.width);
        }
        refit_grid(&mut self.buffer, self.width, new_width, new_height);
        self.width = new_width;
        self.height = new_height;
        self.cursor = clamp_cursor_to(self.cursor, new_width, new_height);
        self.saved_cursor = clamp_cursor_to(self.saved_cursor, new_width, new_height);
        self.tabs = make_default_tabs(new_width);
        self.scroll_top = 0;
        self.scroll_bottom = new_height - 1;
    }

    /// Puts the terminal back into its first state, at its present size
    /// and scrollback capacity.
    pub fn reset(&mut self)
        requires
            old(self).wf(),
        ensures
            final(self).wf(),
            final(self)@ == old(self)@.reset(),
    {
        *self = Terminal::with_history_capacity(self.width, self.height, self.history.capacity());
    }

    /// The window title.
    pub fn get_title(&self) -> (title: &String)
        ensures
            title@ == self@.title,
    {
        &self.title
    }

    /// The icon title.
    pub fn get_icon_title(&self) -> (title: &String)
        ensures
            title@ == self@.icon_title,
    {
        &self.icon_title
    }

    /// The working directory that the child process last reported.
    pub fn get_working_directory(&self) -> (path: &String)
        ensures
            path@ == self@.working_directory,
    {
        &self.working_directory
    }

    /// Records the working directory that the child process reported.
    pub fn set_working_directory(&mut self, path: String)
        requires
            old(self).wf(),
        ensures
            final(self).wf(),
            final(self)@ == (Screen { working_directory: path@, ..old(self)@ }),
    {
        self.working_directory = path;
    }

    /// The modes as they stand.
    pub fn get_modes(&self) -> (modes: Modes)
        ensures
            modes == self@.modes,
    {
        self.modes
    }

    /// The scroll region: its first and its last row.
    pub fn get_scroll_region(&self) -> (region: (usize, usize))
        ensures
            region == (self@.scroll_top, self@.scroll_bottom),
    {
        (self.scroll_top, self.scroll_bottom)
    }

    /// The colours and the style that the next printed character gets:
    /// foreground, background, flags.
    pub fn get_pen(&self) -> (pen: (Color, Color, Attributes))
        ensures
            pen == (self@.fg, self@.bg, self@.attrs),
    {
        (self.current_fg, self.current_bg, self.current_attrs)
    }
}

/// A tab stop found to the left of a column is less than the column.
pub proof fn lemma_prev_tab_less(tabs: Seq<usize>, x: usize, upto: int)
    ensures
        prev_tab_upto(tabs, x, upto) is Some ==> prev_tab_upto(tabs, x, upto)->0 < x,
    decreases upto,
{
    if upto <= 0 || upto > tabs.len() {
    } else if tabs[upto - 1] < x {
    } else {
        lemma_prev_tab_less(tabs, x, upto - 1);
    }
}

/// The text that `with_sample_data` writes.
pub open spec fn sample_text() -> Seq<char> {
    "RT Terminal Emulator - Advanced Rendering Engine\nFeatures: 60+ FPS, Hardware Acceleration, Ligatures\nProgramming symbols: => != === >= <= && ||\nHigh-DPI support with efficient memory management\nSmooth scrolling and animations enabled\n\nReady for intensive operations!"@
}

impl Terminal {
    /// A terminal of 80 columns and 24 rows that shows a few lines of
    /// sample text, written as `write_text` writes it.
    pub fn with_sample_data() -> (t: Terminal)
        ensures
            t.wf(),
            t@ == Screen::initial(80, 24, DEFAULT_HISTORY_CAPACITY).write_text(
                sample_text(),
            ).with_fresh_estimate(),
    {
        let mut terminal = Terminal::new();
        terminal.write_text(
            "RT Terminal Emulator - Advanced Rendering Engine\nFeatures: 60+ FPS, Hardware Acceleration, Ligatures\nProgramming symbols: => != === >= <= && ||\nHigh-DPI support with efficient memory management\nSmooth scrolling and animations enabled\n\nReady for intensive operations!",
        );
        terminal.calculate_memory_usage();
        terminal
    }

    /// The largest offset, in rows, by which a viewer can scroll back: the
    /// number of rows in the scrollback.
    pub fn max_scroll_offset(&self) -> (rows: usize)
        ensures
            rows == self@.history.len(),
    {
        self.history.len()
    }
}

} // verus!
