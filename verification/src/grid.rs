use vstd::prelude::*;
use crate::history::rows_view;
use crate::screen::{
    blank_grid, blank_row, cleared, grid_has_shape, in_clear_region, refit, row_delete_chars,
    row_erase,
    shift_down, shift_up, ClearMode, Row,
};
use crate::terminal::{blank_cell, TerminalCell};

verus! {

/// A new row of `width` blank cells.
pub fn new_blank_row(width: usize) -> (row: Vec<TerminalCell>)
    ensures
        row@ == blank_row(width),
{
    let mut row: Vec<TerminalCell> = Vec::new();
    let mut i: usize = 0;
    while i < width
        invariant
            i <= width,
            row@.len() == i,
            forall|c: int| 0 <= c < i ==> row@[c] == blank_cell(),
        decreases width - i,
    {
        row.push(TerminalCell::default());
        i += 1;
    }
    assert(row@ =~= blank_row(width));
    row
}

/// A new grid of `height` blank rows of `width` cells.
pub fn new_blank_grid(width: usize, height: usize) -> (grid: Vec<Vec<TerminalCell>>)
    ensures
        rows_view(grid) == blank_grid(width, height),
{
    let mut grid: Vec<Vec<TerminalCell>> = Vec::new();
    let mut i: usize = 0;
    while i < height
        invariant
            i <= height,
            grid@.len() == i,
            forall|r: int| 0 <= r < i ==> (#[trigger] grid@[r])@ == blank_row(width),
        decreases height - i,
    {
        grid.push(new_blank_row(width));
        i += 1;
    }
    assert(rows_view(grid) =~= blank_grid(width, height));
    grid
}

/// A copy of `row`.
pub fn copy_row(row: &Vec<TerminalCell>) -> (copy: Vec<TerminalCell>)
    ensures
        copy@ == row@,
{
    let mut copy: Vec<TerminalCell> = Vec::new();
    let mut i: usize = 0;
    while i < row.len()
        invariant
            i <= row@.len(),
            copy@ == row@.subrange(0, i as int),
        decreases row@.len() - i,
    {
        copy.push(row[i]);
        i += 1;
        assert(copy@ =~= row@.subrange(0, i as int));
    }
    assert(row@.subrange(0, row@.len() as int) =~= row@);
    copy
}

/// Moves the rows `first..=last` up by `k`, filling with blank rows of
/// `width` cells from below.
pub fn shift_rows_up(grid: &mut Vec<Vec<TerminalCell>>, first: usize, last: usize, k: usize, width: usize)
    requires
        first <= last < old(grid)@.len(),
        k <= last - first + 1,
    ensures
        rows_view(*final(grid)) == shift_up(rows_view(*old(grid)), first as int, last as int, k as int, width),
{
    let ghost before = rows_view(*grid);
    let mut i: usize = 0;
    assert(rows_view(*grid) =~= shift_up(before, first as int, last as int, 0, width));
    while i < k
        invariant
            i <= k,
            k <= last - first + 1,
            first <= last < grid@.len(),
            grid@.len() == before.len(),
            rows_view(*grid) == shift_up(before, first as int, last as int, i as int, width),
        decreases k - i,
    {
        let ghost prev = rows_view(*grid);
        grid.remove(first);
        let blank = new_blank_row(width);
        grid.insert(last, blank);
        i += 1;
        assert(rows_view(*grid) =~= shift_up(before, first as int, last as int, i as int, width)) by {
            assert forall|r: int| 0 <= r < before.len() implies rows_view(*grid)[r] == shift_up(
                before,
                first as int,
                last as int,
                i as int,
                width,
            )[r] by {
                if first <= r < last {
                    assert(rows_view(*grid)[r] == prev[r + 1]);
                } else if r == last {
                } else {
                    assert(rows_view(*grid)[r] == prev[r]);
                }
            }
        }
    }
}

/// Moves the rows `first..=last` down by `k`, filling with blank rows of
/// `width` cells from above.
pub fn shift_rows_down(grid: &mut Vec<Vec<TerminalCell>>, first: usize, last: usize, k: usize, width: usize)
    requires
        first <= last < old(grid)@.len(),
        k <= last - first + 1,
    ensures
        rows_view(*final(grid)) == shift_down(
            rows_view(*old(grid)),
            first as int,
            last as int,
            k as int,
            width,
        ),
{
    let ghost before = rows_view(*grid);
    let mut i: usize = 0;
    assert(rows_view(*grid) =~= shift_down(before, first as int, last as int, 0, width));
    while i < k
        invariant
            i <= k,
            k <= last - first + 1,
            first <= last < grid@.len(),
            grid@.len() == before.len(),
            rows_view(*grid) == shift_down(before, first as int, last as int, i as int, width),
        decreases k - i,
    {
        let ghost prev = rows_view(*grid);
        grid.remove(last);
        let blank = new_blank_row(width);
        grid.insert(first, blank);
        i += 1;
        assert(rows_view(*grid) =~= shift_down(before, first as int, last as int, i as int, width)) by {
            assert forall|r: int| 0 <= r < before.len() implies rows_view(*grid)[r] == shift_down(
                before,
                first as int,
                last as int,
                i as int,
                width,
            )[r] by {
                if first < r <= last {
                    assert(rows_view(*grid)[r] == prev[r - 1]);
                } else if r == first {
                } else {
                    assert(rows_view(*grid)[r] == prev[r]);
                }
            }
        }
    }
}

/// Whether the cell at column `c` of row `r` falls to `mode` with the
/// cursor at column `cx` of row `cy`.
pub fn cell_in_clear_region(mode: ClearMode, cx: usize, cy: usize, c: usize, r: usize) -> (hit: bool)
    ensures
        hit == in_clear_region(mode, cx, cy, c as int, r as int),
{
    match mode {
        ClearMode::DisplayToEnd => r > cy || (r == cy && c >= cx),
        ClearMode::DisplayToStart => r < cy || (r == cy && c <= cx),
        ClearMode::DisplayAll => true,
        ClearMode::LineToEnd => r == cy && c >= cx,
        ClearMode::LineToStart => r == cy && c <= cx,
        ClearMode::LineAll => r == cy,
    }
}

/// Blanks the cells of `row`, which is row `r`, that fall to `mode`.
pub fn clear_in_row(row: &mut Vec<TerminalCell>, mode: ClearMode, cx: usize, cy: usize, r: usize)
    ensures
        final(row)@ == Seq::new(
            old(row)@.len(),
            |c: int|
                if in_clear_region(mode, cx, cy, c, r as int) {
                    blank_cell()
                } else {
                    old(row)@[c]
                },
        ),
{
    let ghost before = row@;
    let n = row.len();
    let mut c: usize = 0;
    while c < n
        invariant
            c <= n,
            n == before.len(),
            row@.len() == n,
            forall|j: int|
                0 <= j < c ==> row@[j] == if in_clear_region(mode, cx, cy, j, r as int) {
                    blank_cell()
                } else {
                    before[j]
                },
            forall|j: int| c <= j < n ==> row@[j] == before[j],
        decreases n - c,
    {
        if cell_in_clear_region(mode, cx, cy, c, r) {
            row[c] = TerminalCell::default();
        }
        c += 1;
    }
    assert(row@ =~= Seq::new(
        before.len(),
        |c: int|
            if in_clear_region(mode, cx, cy, c, r as int) {
                blank_cell()
            } else {
                before[c]
            },
    ));
}

/// Removes `k` cells of `row` from column `x` on; the rest moves left and
/// blanks enter at the end.
pub fn delete_in_row(row: &mut Vec<TerminalCell>, x: usize, k: usize)
    requires
        x <= old(row)@.len(),
        k <= old(row)@.len() - x,
    ensures
        final(row)@ == row_delete_chars(old(row)@, x as int, k as int),
{
    let ghost before = row@;
    let n = row.len();
    let mut c: usize = x;
    while c < n
        invariant
            x <= c <= n,
            k <= n - x,
            n == before.len(),
            row@.len() == n,
            forall|j: int| 0 <= j < c ==> row@[j] == row_delete_chars(before, x as int, k as int)[j],
            forall|j: int| c <= j < n ==> row@[j] == before[j],
        decreases n - c,
    {
        if c < n - k {
            row[c] = row[c + k];
        } else {
            row[c] = TerminalCell::default();
        }
        c += 1;
    }
    assert(row@ =~= row_delete_chars(before, x as int, k as int));
}

/// Blanks the cells `from..to` of `row`.
pub fn erase_in_row(row: &mut Vec<TerminalCell>, from: usize, to: usize)
    requires
        to <= old(row)@.len(),
    ensures
        final(row)@ == row_erase(old(row)@, from as int, to as int),
{
    let ghost before = row@;
    let mut c: usize = from;
    while c < to
        invariant
            to <= before.len(),
            row@.len() == before.len(),
            from <= c,
            from <= to ==> c <= to,
            from > to ==> c == from,
            forall|j: int| 0 <= j < row@.len() ==> row@[j] == if from <= j < c {
                blank_cell()
            } else {
                before[j]
            },
        decreases to - c,
    {
        row[c] = TerminalCell::default();
        c += 1;
    }
    assert(row@ =~= row_erase(before, from as int, to as int));
}

/// Cuts or pads `row` with blanks to `width` cells.
pub fn fit_row(row: &mut Vec<TerminalCell>, width: usize)
    ensures
        final(row)@ == Seq::new(
            width as nat,
            |c: int|
                if c < old(row)@.len() {
                    old(row)@[c]
                } else {
                    blank_cell()
                },
        ),
{
    let ghost before = row@;
    row.truncate(width);
    while row.len() < width
        invariant
            row@.len() <= width,
            forall|j: int| 0 <= j < row@.len() ==> row@[j] == if j < before.len() {
                before[j]
            } else {
                blank_cell()
            },
            row@.len() < before.len() ==> row@.len() == width,
        decreases width - row@.len(),
    {
        row.push(TerminalCell::default());
    }
    assert(row@ =~= Seq::new(
        width as nat,
        |c: int|
            if c < before.len() {
                before[c]
            } else {
                blank_cell()
            },
    ));
}

/// Blanks the cells of `grid` that fall to `mode`.
pub fn clear_cells(grid: &mut Vec<Vec<TerminalCell>>, mode: ClearMode, cx: usize, cy: usize)
    ensures
        rows_view(*final(grid)) == cleared(rows_view(*old(grid)), mode, cx, cy),
{
    let ghost before = rows_view(*grid);
    let n = grid.len();
    let mut r: usize = 0;
    while r < n
        invariant
            r <= n,
            n == before.len(),
            grid@.len() == n,
            forall|j: int| 0 <= j < r ==> (#[trigger] grid@[j])@ == cleared(before, mode, cx, cy)[j],
            forall|j: int| r <= j < n ==> (#[trigger] grid@[j])@ == before[j],
        decreases n - r,
    {
        clear_in_row(&mut grid[r], mode, cx, cy, r);
        assert(grid@[r as int]@ =~= cleared(before, mode, cx, cy)[r as int]);
        r += 1;
    }
    assert(rows_view(*grid) =~= cleared(before, mode, cx, cy));
}

/// Cuts or pads `grid`, whose rows have `old_width` cells, to `height`
/// rows of `width` cells.
pub fn refit_grid(grid: &mut Vec<Vec<TerminalCell>>, old_width: usize, width: usize, height: usize)
    requires
        forall|r: int| 0 <= r < old(grid)@.len() ==> (#[trigger] old(grid)@[r])@.len() == old_width,
    ensures
        rows_view(*final(grid)) == refit(rows_view(*old(grid)), old_width, width, height),
{
    let ghost before = rows_view(*grid);
    grid.truncate(height);
    let n = grid.len();
    let mut r: usize = 0;
    while r < n
        invariant
            r <= n,
            n <= before.len(),
            n <= height,
            grid@.len() == n,
            forall|j: int| 0 <= j < before.len() ==> (#[trigger] before[j]).len() == old_width,
            forall|j: int| 0 <= j < r ==> (#[trigger] grid@[j])@ == refit(before, old_width, width, height)[j],
            forall|j: int| r <= j < n ==> (#[trigger] grid@[j])@ == before[j],
        decreases n - r,
    {
        fit_row(&mut grid[r], width);
        assert(grid@[r as int]@ =~= refit(before, old_width, width, height)[r as int]);
        r += 1;
    }
    while grid.len() < height
        invariant
            grid@.len() <= height,
            n <= grid@.len(),
            n < before.len() ==> n == height,
            n <= before.len(),
            forall|j: int| 0 <= j < grid@.len() ==> (#[trigger] grid@[j])@ == refit(before, old_width, width, height)[j],
        decreases height - grid@.len(),
    {
        let ghost at = grid@.len() as int;
        let row = new_blank_row(width);
        assert(row@ =~= refit(before, old_width, width, height)[at]);
        grid.push(row);
    }
    assert(rows_view(*grid) =~= refit(before, old_width, width, height));
}

/// Moving a band of rows up keeps the shape of the grid.
pub proof fn lemma_shift_up_shape(grid: Seq<Row>, first: int, last: int, k: int, width: usize, height: usize)
    requires
        grid_has_shape(grid, width, height),
        0 <= first <= last < height,
        0 <= k,
    ensures
        grid_has_shape(shift_up(grid, first, last, k, width), width, height),
{
    let g = shift_up(grid, first, last, k, width);
    assert forall|r: int| 0 <= r < height implies (#[trigger] g[r]).len() == width by {
        if first <= r <= last && r + k <= last {
            assert(g[r] == grid[r + k]);
        } else if first <= r <= last {
            assert(g[r] == blank_row(width));
        } else {
            assert(g[r] == grid[r]);
        }
    }
}

/// Moving a band of rows down keeps the shape of the grid.
pub proof fn lemma_shift_down_shape(grid: Seq<Row>, first: int, last: int, k: int, width: usize, height: usize)
    requires
        grid_has_shape(grid, width, height),
        0 <= first <= last < height,
        0 <= k,
    ensures
        grid_has_shape(shift_down(grid, first, last, k, width), width, height),
{
    let g = shift_down(grid, first, last, k, width);
    assert forall|r: int| 0 <= r < height implies (#[trigger] g[r]).len() == width by {
        if first <= r <= last && r - k >= first {
            assert(g[r] == grid[r - k]);
        } else if first <= r <= last {
            assert(g[r] == blank_row(width));
        } else {
            assert(g[r] == grid[r]);
        }
    }
}

/// Every row has a shape again after one row was replaced by a row of the
/// same length.
pub proof fn lemma_update_keeps_shape(grid: Seq<Row>, width: usize, height: usize, r: int, row: Row)
    requires
        grid_has_shape(grid, width, height),
        0 <= r < height,
        row.len() == width,
    ensures
        grid_has_shape(grid.update(r, row), width, height),
{
    assert forall|i: int| 0 <= i < height implies (#[trigger] grid.update(r, row)[i]).len()
        == width by {
        if i != r {
            assert(grid.update(r, row)[i] == grid[i]);
        }
    }
}

} // verus!
