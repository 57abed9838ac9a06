use vstd::prelude::*;
use crate::event::{nth_param_from, EventView, Param};
use crate::screen::{blank_row, min_of, minus, push_history, shift_up, Screen};
use crate::ansi::{extended_color, extended_len};
use crate::terminal::{ansi_color, blank_cell, plain_attributes, Color};
use crate::tokenizer::TokenizerState;

verus! {

/// A fresh screen of `width` columns and `height` rows, both at least
/// one, keeps the invariant; it has exactly `height` rows of exactly
/// `width` cells, every cell is blank, and the cursor stands at the top
/// left.
pub proof fn law_fresh_screen(width: usize, height: usize, capacity: usize)
    requires
        width >= 1,
        height >= 1,
    ensures
        Screen::initial(width, height, capacity).wf(),
        Screen::initial(width, height, capacity).grid.len() == height,
        forall|r: int|
            0 <= r < height ==> (#[trigger] Screen::initial(width, height, capacity).grid[r]).len()
                == width,
        forall|r: int, c: int|
            0 <= r < height && 0 <= c < width ==> Screen::initial(width, height, capacity).grid[r][c]
                == blank_cell(),
        Screen::initial(width, height, capacity).cursor.x == 0,
        Screen::initial(width, height, capacity).cursor.y == 0,
        Screen::initial(width, height, capacity).history.len() == 0,
{
    let s = Screen::initial(width, height, capacity);
    assert forall|i: int, j: int| 0 <= i < j < s.tabs.len() implies s.tabs[i] < s.tabs[j] by {}
}

/// Printing a character of `w` columns that fits before the last column
/// puts its cell at the cursor and moves the cursor `w` columns on, in the
/// same row.
pub proof fn law_print_advances(s: Screen, c: char, w: usize)
    requires
        s.wf(),
        c != '\0',
        w >= 1,
        s.cursor.x + w < s.width,
    ensures
        s.print(c, w).cursor.x == s.cursor.x + w,
        s.print(c, w).cursor.y == s.cursor.y,
        s.print(c, w).cell_at(s.cursor.x, s.cursor.y) == Some(s.pen_cell(c)),
{
}

/// Printing a character that reaches the end of the row: with wraparound
/// on, the cursor goes to the first column of the next row, and at the
/// bottom of the scroll region the region scrolls up by one row instead;
/// with wraparound off, the cursor stays on the last column.
pub proof fn law_print_wraps(s: Screen, c: char, w: usize)
    requires
        s.wf(),
        c != '\0',
        w >= 1,
        s.cursor.x + w == s.width,
    ensures
        s.modes.wraparound ==> s.print(c, w).cursor.x == 0,
        s.modes.wraparound && s.cursor.y != s.scroll_bottom && s.cursor.y + 1 < s.height
            ==> s.print(c, w).cursor.y == s.cursor.y + 1,
        s.modes.wraparound && s.cursor.y == s.scroll_bottom ==> s.print(c, w) == s.put_cell(
            s.cursor.x,
            s.cursor.y,
            s.pen_cell(c),
        ).with_cursor_x(0).scroll_up(1),
        !s.modes.wraparound ==> s.print(c, w).cursor.x == s.width - 1 && s.print(c, w).cursor.y
            == s.cursor.y,
{
}

/// A newline written as text puts the cursor on the first column. On
/// every row but the bottom row of the scroll region and the last row of
/// the screen it moves the cursor one row down and leaves the grid alone.
/// At the bottom of the scroll region the cursor's row stays and the
/// region scrolls up by one row; where the region is the whole screen and
/// the scrollback has room for a row, the top row of the screen becomes
/// the newest row of the scrollback.
pub proof fn law_newline(s: Screen)
    requires
        s.wf(),
    ensures
        s.write_char('\n').cursor.x == 0,
        s.cursor.y != s.scroll_bottom && s.cursor.y + 1 < s.height ==> s.write_char('\n').cursor.y
            == s.cursor.y + 1 && s.write_char('\n').grid == s.grid && s.write_char('\n').history
            == s.history,
        s.cursor.y == s.scroll_bottom ==> s.write_char('\n') == s.with_cursor_x(0).scroll_up(1)
            && s.write_char('\n').cursor.y == s.cursor.y,
        s.cursor.y == s.scroll_bottom && s.region_is_full() && s.history_capacity > 0 ==> {
            &&& s.write_char('\n').history.len() == if s.history.len() + 1 <= s.history_capacity {
                s.history.len() + 1
            } else {
                s.history_capacity as nat
            }
            &&& s.write_char('\n').history.last() == s.grid[0]
        },
{
    reveal(push_history);
    if s.cursor.y == s.scroll_bottom && s.region_is_full() && s.history_capacity > 0 {
        let t = s.with_cursor_x(0);
        let rows = t.grid.subrange(0, 1);
        assert(rows.len() == 1);
        assert(rows[0] == s.grid[0]);
        let all = t.history + rows;
        assert(all.last() == s.grid[0]);
        let kept = push_history(t.history, rows, t.history_capacity);
        assert(kept.last() == all.last());
        assert(s.write_char('\n').history == kept);
    }
}

/// Resizing to a size that is larger in both directions keeps every cell
/// of the old screen where it was, the cell at the top left among them,
/// and fills the new cells with blanks.
pub proof fn law_resize_larger_keeps_cells(s: Screen, width: usize, height: usize)
    requires
        s.wf(),
        width > s.width,
        height > s.height,
    ensures
        s.resize(width, height).wf(),
        s.resize(width, height).grid[0][0] == s.grid[0][0],
        forall|r: int, c: int|
            0 <= r < s.height && 0 <= c < s.width ==> s.resize(width, height).grid[r][c]
                == s.grid[r][c],
        forall|r: int, c: int|
            0 <= r < height && 0 <= c < width && (r >= s.height || c >= s.width) ==> s.resize(
                width,
                height,
            ).grid[r][c] == blank_cell(),
{
    let t = s.resize(width, height);
    assert forall|i: int, j: int| 0 <= i < j < t.tabs.len() implies t.tabs[i] < t.tabs[j] by {}
}

/// Printing a character of `w` columns for which the rest of the row has
/// no room, with wraparound on: the character goes to the start of the
/// next row, and the cursor stands behind it.
pub proof fn law_print_moves_to_next_row(s: Screen, c: char, w: usize)
    requires
        s.wf(),
        c != '\0',
        w >= 1,
        w < s.width,
        s.cursor.x + w > s.width,
        s.modes.wraparound,
        s.cursor.y != s.scroll_bottom,
        s.cursor.y + 1 < s.height,
    ensures
        s.print(c, w).cursor.x == w,
        s.print(c, w).cursor.y == s.cursor.y + 1,
        s.print(c, w).cell_at(0, (s.cursor.y + 1) as usize) == Some(s.pen_cell(c)),
{
}

/// The screen after `n` scrolls of the scroll region by one row each.
pub open spec fn scrolled(s: Screen, n: nat) -> Screen
    decreases n,
{
    if n == 0 {
        s
    } else {
        scrolled(s, (n - 1) as nat).scroll_up(1)
    }
}

/// After `n` scrolls of a scroll region that is the whole screen, the
/// scrollback holds `n` rows more than before, but never more than its
/// capacity: from an empty scrollback of capacity `M`, the lesser of `n`
/// and `M`.
pub proof fn law_history_length(s: Screen, n: nat)
    requires
        s.wf(),
        s.region_is_full(),
    ensures
        scrolled(s, n).wf(),
        scrolled(s, n).region_is_full(),
        scrolled(s, n).history_capacity == s.history_capacity,
        scrolled(s, n).history.len() == if s.history.len() + n <= s.history_capacity {
            s.history.len() + n
        } else {
            s.history_capacity as nat
        },
    decreases n,
{
    reveal(push_history);
    if n > 0 {
        law_history_length(s, (n - 1) as nat);
        let p = scrolled(s, (n - 1) as nat);
        lemma_scroll_up_wf(p, 1);
        assert(p.grid.subrange(0, 1).len() == 1);
    }
}

/// Scrolling up keeps the invariant.
pub proof fn lemma_scroll_up_wf(s: Screen, n: usize)
    requires
        s.wf(),
    ensures
        s.scroll_up(n).wf(),
{
    reveal(push_history);
    let k = min_of(n, (s.scroll_bottom - s.scroll_top + 1) as usize);
    let g = shift_up(s.grid, s.scroll_top as int, s.scroll_bottom as int, k as int, s.width);
    assert forall|r: int| 0 <= r < s.height implies (#[trigger] g[r]).len() == s.width by {
        if s.scroll_top <= r <= s.scroll_bottom && r + k <= s.scroll_bottom {
            assert(g[r] == s.grid[r + k]);
        } else if s.scroll_top <= r <= s.scroll_bottom {
            assert(g[r] == blank_row(s.width));
        } else {
            assert(g[r] == s.grid[r]);
        }
    }
}

/// The cursor position sequence with the one-based row `row` and column
/// `col`, origin mode off, puts the cursor on column `col - 1` of row
/// `row - 1`, or on the last column or row where that lies outside the
/// screen.
pub proof fn law_cursor_position(s: Screen, params: Seq<Param>, intermediates: Seq<u8>, row: u16, col: u16)
    requires
        s.wf(),
        !s.modes.origin_mode,
        nth_param_from(params, 0, 0) == Some(row),
        nth_param_from(params, 0, 1) == Some(col),
    ensures
        s.csi(params, intermediates, false, 'H').cursor.x == min_of(
            minus(col as usize, 1),
            (s.width - 1) as usize,
        ),
        s.csi(params, intermediates, false, 'H').cursor.y == min_of(
            minus(row as usize, 1),
            (s.height - 1) as usize,
        ),
        s.csi(params, intermediates, false, 'f') == s.csi(params, intermediates, false, 'H'),
{
}

/// Erasing the whole screen, sending the cursor home and printing two
/// characters of one column each leaves a screen that is blank but for
/// the two characters at the start of the top row.
pub proof fn law_clear_home_print(s: Screen, first: char, second: char)
    requires
        s.wf(),
        s.width >= 3,
        !s.modes.origin_mode,
        first != '\0',
        second != '\0',
    ensures
        ({
            let cleared = s.csi(seq![Param { value: 2, sub: false }], Seq::empty(), false, 'J');
            let home = cleared.csi(Seq::empty(), Seq::empty(), false, 'H');
            let t = home.print(first, 1).print(second, 1);
            &&& t.wf()
            &&& t.cursor.x == 2 && t.cursor.y == 0
            &&& forall|r: int, c: int|
                0 <= r < s.height && 0 <= c < s.width ==> t.grid[r][c] == if r == 0 && c == 0 {
                    s.pen_cell(first)
                } else if r == 0 && c == 1 {
                    s.pen_cell(second)
                } else {
                    blank_cell()
                }
        }),
{
    let params = seq![Param { value: 2, sub: false }];
    assert(nth_param_from(params, 0, 0) == Some(2u16));
    let cleared = s.csi(params, Seq::empty(), false, 'J');
    assert(cleared == s.clear_screen());
    let none = Seq::<Param>::empty();
    assert(nth_param_from(none, 0, 0) is None);
    assert(nth_param_from(none, 0, 1) is None);
    let home = cleared.csi(none, Seq::empty(), false, 'H');
    assert(home == cleared.with_cursor_at(0, 0));
    let one = home.print(first, 1);
    assert(one.cursor.x == 1 && one.cursor.y == 0);
    assert(one.grid == home.grid.update(0, home.grid[0].update(0, s.pen_cell(first))));
    let t = one.print(second, 1);
    assert(t.grid == one.grid.update(0, one.grid[0].update(1, s.pen_cell(second))));
    assert forall|r: int| 0 <= r < s.height implies (#[trigger] t.grid[r]).len() == s.width by {}
}

/// Setting the scroll region to the one-based rows `top` and `bottom`,
/// with `top` before `bottom` and `bottom` on the screen, makes the region
/// the rows `top - 1` to `bottom - 1`; the cursor goes to the first column
/// of the region's top row with origin mode on, of the screen's top row
/// with origin mode off.
pub proof fn law_set_margins(s: Screen, top: usize, bottom: usize)
    requires
        s.wf(),
        1 <= top < bottom <= s.height,
    ensures
        s.set_margins(top, bottom).wf(),
        s.set_margins(top, bottom).scroll_top == top - 1,
        s.set_margins(top, bottom).scroll_bottom == bottom - 1,
        s.set_margins(top, bottom).cursor.x == 0,
        s.set_margins(top, bottom).cursor.y == if s.modes.origin_mode {
            (top - 1) as usize
        } else {
            0
        },
{
}

/// The set-margins sequence with the one-based rows `top` and `bottom`
/// written out sets the scroll region as `set_margins` does; without the
/// second parameter the region ends at the last row.
pub proof fn law_margins_sequence(s: Screen, params: Seq<Param>, intermediates: Seq<u8>, top: u16)
    requires
        s.wf(),
        nth_param_from(params, 0, 0) == Some(top),
    ensures
        s.csi(params, intermediates, false, 'r') == s.set_margins(
            top as usize,
            match nth_param_from(params, 0, 1) {
                Some(bottom) => bottom as usize,
                None => s.height,
            },
        ),
{
}

/// The rendition parameter 31 makes the foreground the red of the
/// sixteen colours, and the cell of a character printed then carries it;
/// the parameter 0 puts colours and style back to their defaults.
pub proof fn law_red_then_reset(s: Screen, c: char)
    requires
        s.wf(),
        !s.attrs.reverse,
    ensures
        s.sgr(seq![Param { value: 31, sub: false }]).fg == Color(205, 0, 0, 255),
        s.sgr(seq![Param { value: 31, sub: false }]).pen_cell(c).foreground_color == Color(
            205,
            0,
            0,
            255,
        ),
        s.sgr(seq![Param { value: 0, sub: false }]).fg == Color(255, 255, 255, 255),
        s.sgr(seq![Param { value: 0, sub: false }]).bg == Color(0, 0, 0, 255),
        s.sgr(seq![Param { value: 0, sub: false }]).attrs == plain_attributes(),
{
    let red = seq![Param { value: 31, sub: false }];
    assert(s.sgr_from(red, 0) == s.sgr_one(31).sgr_from(red, 1));
    let zero = seq![Param { value: 0, sub: false }];
    assert(s.sgr_from(zero, 0) == s.sgr_one(0).sgr_from(zero, 1));
}

/// The rendition parameters `38;5;n` make the foreground the colour `n`
/// of the palette of 256 colours, and `48;2;r;g;b` make the background
/// the colour with those components; the parameters behind the 38 and
/// the 48 change no style flag.
pub proof fn law_extended_colours(s: Screen, n: u8, r: u8, g: u8, b: u8)
    requires
        s.wf(),
    ensures
        s.sgr(
            seq![
                Param { value: 38, sub: false },
                Param { value: 5, sub: false },
                Param { value: n as u16, sub: false },
            ],
        ) == (Screen { fg: ansi_color(n), ..s }),
        s.sgr(
            seq![
                Param { value: 48, sub: false },
                Param { value: 2, sub: false },
                Param { value: r as u16, sub: false },
                Param { value: g as u16, sub: false },
                Param { value: b as u16, sub: false },
            ],
        ) == (Screen { bg: Color(r, g, b, 255), ..s }),
{
    let indexed = seq![
        Param { value: 38, sub: false },
        Param { value: 5, sub: false },
        Param { value: n as u16, sub: false },
    ];
    assert(extended_len(indexed, 1) == 2);
    assert(extended_color(indexed, 1) == Some(ansi_color(n)));
    let one = Screen { fg: ansi_color(n), ..s };
    assert(s.sgr_from(indexed, 0) == one.sgr_from(indexed, 3));
    let direct = seq![
        Param { value: 48, sub: false },
        Param { value: 2, sub: false },
        Param { value: r as u16, sub: false },
        Param { value: g as u16, sub: false },
        Param { value: b as u16, sub: false },
    ];
    assert(extended_len(direct, 1) == 4);
    assert(extended_color(direct, 1) == Some(Color(r, g, b, 255)));
    let two = Screen { bg: Color(r, g, b, 255), ..s };
    assert(s.sgr_from(direct, 0) == two.sgr_from(direct, 5));
}

/// Bytes that arrive in two chunks give the events, and leave the
/// tokenizer in the state, that they give when they arrive at once.
pub proof fn law_chunks(t: TokenizerState, first: Seq<u8>, second: Seq<u8>)
    ensures
        t.run(first + second).0 == t.run(first).0.run(second).0,
        t.run(first + second).1 == t.run(first).1 + t.run(first).0.run(second).1,
    decreases second.len(),
{
    if second.len() == 0 {
        assert(first + second =~= first);
        assert(t.run(first).1 + Seq::<EventView>::empty() =~= t.run(first).1);
    } else {
        let whole = first + second;
        assert(whole.drop_last() =~= first + second.drop_last());
        assert(whole.last() == second.last());
        law_chunks(t, first, second.drop_last());
        let mid = t.run(first).0;
        let (u, events) = mid.run(second.drop_last());
        let (next, event) = u.step(second.last());
        match event {
            Some(e) => {
                assert((t.run(first).1 + events).push(e) =~= t.run(first).1 + events.push(e));
            },
            None => {},
        }
    }
}

/// Carrying out two runs of events one after the other is carrying out
/// all of them.
pub proof fn lemma_apply_all_concat(s: Screen, first: Seq<EventView>, second: Seq<EventView>)
    ensures
        s.apply_all(first + second) == s.apply_all(first).apply_all(second),
    decreases second.len(),
{
    if second.len() == 0 {
        assert(first + second =~= first);
    } else {
        assert((first + second).drop_last() =~= first + second.drop_last());
        assert((first + second).last() == second.last());
        lemma_apply_all_concat(s, first, second.drop_last());
    }
}

/// Showing bytes in two chunks, the tokenizer going on from where the
/// first chunk left it, gives the screen that showing them at once gives.
pub proof fn law_process_chunks(s: Screen, t: TokenizerState, first: Seq<u8>, second: Seq<u8>)
    ensures
        s.process(t, first + second) == s.process(t, first).process(t.run(first).0, second),
{
    law_chunks(t, first, second);
    lemma_apply_all_concat(s, t.run(first).1, t.run(first).0.run(second).1);
}

} // verus!
