//! The transition rule: the classic Game-of-Life birth/survival/death rule
//! (birth on exactly three Alive neighbors, survival on two or three),
//! decorated with a three-step decay chain, so a dying cell fades through the
//! vanishing codes instead of dropping to Dead at once.

use crate::types::{spec_cell_code, Cell};
use vstd::arithmetic::div_mod::lemma_fundamental_div_mod_converse;
use vstd::prelude::*;

verus! {

/// Positions are addressed row-major: cell (col, row) lives at `row * w + col`.
pub open spec fn cell_index(w: int, col: int, row: int) -> int {
    row * w + col
}

/// A row-major index of an on-grid position is in range of the buffer.
pub proof fn lemma_index_in_range(w: int, h: int, col: int, row: int)
    requires
        w >= 1,
        h >= 1,
        0 <= col < w,
        0 <= row < h,
    ensures
        0 <= cell_index(w, col, row) < w * h,
{
    assert(0 <= row * w + col < w * h) by (nonlinear_arith)
        requires
            w >= 1,
            h >= 1,
            0 <= col < w,
            0 <= row < h,
    ;
}

/// A row-major index decomposes back into its column and row.
pub proof fn lemma_index_split(w: int, col: int, row: int)
    requires
        w >= 1,
        0 <= col < w,
        0 <= row,
    ensures
        cell_index(w, col, row) % w == col,
        cell_index(w, col, row) / w == row,
{
    lemma_fundamental_div_mod_converse(row * w + col, w, row, col);
}

/// True when position (col, row) lies on the grid and holds an Alive cell.
pub open spec fn alive_at(cells: Seq<u8>, w: int, h: int, col: int, row: int) -> bool {
    0 <= col < w && 0 <= row < h && cells[cell_index(w, col, row)] == spec_cell_code(Cell::Alive)
}

/// One when position (col, row) holds an Alive cell, else zero. An off-grid
/// position counts as Dead: the border has no wraparound.
pub open spec fn alive_ind(cells: Seq<u8>, w: int, h: int, col: int, row: int) -> int {
    if alive_at(cells, w, h, col, row) {
        1
    } else {
        0
    }
}

/// The number of Alive cells among the up to eight neighbors of (col, row).
pub open spec fn live_neighbors(cells: Seq<u8>, w: int, h: int, col: int, row: int) -> int {
    alive_ind(cells, w, h, col - 1, row - 1) + alive_ind(cells, w, h, col, row - 1) + alive_ind(
        cells,
        w,
        h,
        col + 1,
        row - 1,
    ) + alive_ind(cells, w, h, col - 1, row) + alive_ind(cells, w, h, col + 1, row) + alive_ind(
        cells,
        w,
        h,
        col - 1,
        row + 1,
    ) + alive_ind(cells, w, h, col, row + 1) + alive_ind(cells, w, h, col + 1, row + 1)
}

/// The transition table, first match wins: an Alive cell with fewer than two
/// or more than three Alive neighbors starts vanishing; an Alive cell with
/// two or three survives; any non-Alive cell with exactly three is born; the
/// last vanishing step dies; an earlier vanishing step advances; Dead stays
/// Dead. A code above the known states is left unchanged.
pub open spec fn next_code(prev: u8, neighbors: int) -> u8 {
    if prev == spec_cell_code(Cell::Alive) && (neighbors < 2 || neighbors > 3) {
        spec_cell_code(Cell::Vanishing1)
    } else if prev == spec_cell_code(Cell::Alive) {
        spec_cell_code(Cell::Alive)
    } else if neighbors == 3 {
        spec_cell_code(Cell::Alive)
    } else if prev == spec_cell_code(Cell::Vanishing3) {
        spec_cell_code(Cell::Dead)
    } else if prev == spec_cell_code(Cell::Vanishing2) {
        spec_cell_code(Cell::Vanishing3)
    } else if prev == spec_cell_code(Cell::Vanishing1) {
        spec_cell_code(Cell::Vanishing2)
    } else {
        prev
    }
}

/// The whole next generation: every cell's next code, each computed from the
/// same previous buffer, so a cell's new state never feeds its neighbors'
/// counts within one tick.
pub open spec fn next_generation(cells: Seq<u8>, w: int, h: int) -> Seq<u8> {
    Seq::new(
        cells.len(),
        |i: int| next_code(cells[i], live_neighbors(cells, w, h, i % w, i / w)),
    )
}

/// Counts the Alive neighbors of (col, row) in the buffer.
pub(crate) fn count_live_neighbors(cells: &Vec<u8>, w: usize, h: usize, col: usize, row: usize) -> (n:
    u8)
    requires
        w >= 1,
        h >= 1,
        cells@.len() == w * h,
        col < w,
        row < h,
    ensures
        n as int == live_neighbors(cells@, w as int, h as int, col as int, row as int),
        n <= 8,
{
    let mut n: u8 = 0;
    let total = cells.len();
    proof {
        assert(total == w * h);
        let wi = w as int;
        let hi = h as int;
        let ci = col as int;
        let ri = row as int;
        if ri > 0 {
            if ci > 0 {
                lemma_index_in_range(wi, hi, ci - 1, ri - 1);
            }
            lemma_index_in_range(wi, hi, ci, ri - 1);
            if ci + 1 < wi {
                lemma_index_in_range(wi, hi, ci + 1, ri - 1);
            }
        }
        if ci > 0 {
            lemma_index_in_range(wi, hi, ci - 1, ri);
        }
        if ci + 1 < wi {
            lemma_index_in_range(wi, hi, ci + 1, ri);
        }
        if ri + 1 < hi {
            if ci > 0 {
                lemma_index_in_range(wi, hi, ci - 1, ri + 1);
            }
            lemma_index_in_range(wi, hi, ci, ri + 1);
            if ci + 1 < wi {
                lemma_index_in_range(wi, hi, ci + 1, ri + 1);
            }
        }
    }
    if row > 0 {
        if col > 0 && cells[(row - 1) * w + (col - 1)] == 1 {
            n = n + 1;
        }
        if cells[(row - 1) * w + col] == 1 {
            n = n + 1;
        }
        if col + 1 < w && cells[(row - 1) * w + (col + 1)] == 1 {
            n = n + 1;
        }
    }
    if col > 0 && cells[row * w + (col - 1)] == 1 {
        n = n + 1;
    }
    if col + 1 < w && cells[row * w + (col + 1)] == 1 {
        n = n + 1;
    }
    if row + 1 < h {
        if col > 0 && cells[(row + 1) * w + (col - 1)] == 1 {
            n = n + 1;
        }
        if cells[(row + 1) * w + col] == 1 {
            n = n + 1;
        }
        if col + 1 < w && cells[(row + 1) * w + (col + 1)] == 1 {
            n = n + 1;
        }
    }
    n
}

/// The next code of one cell, by the transition table.
pub(crate) fn next_cell_code(prev: u8, neighbors: u8) -> (r: u8)
    ensures
        r == next_code(prev, neighbors as int),
{
    if prev == 1 && (neighbors < 2 || neighbors > 3) {
        2
    } else if prev == 1 {
        1
    } else if neighbors == 3 {
        1
    } else if prev == 4 {
        0
    } else if prev == 3 {
        4
    } else if prev == 2 {
        3
    } else {
        prev
    }
}

/// Law: advancing a generation is a pure function of the previous buffer —
/// two grids of one shape holding equal buffers step to equal buffers, so
/// restoring a prior generation and stepping again repeats the same result.
pub proof fn lemma_step_deterministic(a: Seq<u8>, b: Seq<u8>, w: int, h: int)
    requires
        a == b,
    ensures
        next_generation(a, w, h) == next_generation(b, w, h),
{
}

/// Law: a grid of Dead cells only is a fixed point — stepping it leaves
/// every cell Dead.
pub proof fn lemma_dead_grid_fixed_point(cells: Seq<u8>, w: int, h: int)
    requires
        w >= 1,
        h >= 1,
        cells.len() == w * h,
        forall|i: int| 0 <= i < cells.len() ==> #[trigger] cells[i] == spec_cell_code(Cell::Dead),
    ensures
        next_generation(cells, w, h) == cells,
{
    assert forall|c: int, r: int| !alive_at(cells, w, h, c, r) by {
        if 0 <= c < w && 0 <= r < h {
            lemma_index_in_range(w, h, c, r);
        }
    }
    assert forall|i: int| 0 <= i < cells.len() implies #[trigger] next_generation(cells, w, h)[i]
        == cells[i] by {
        assert(live_neighbors(cells, w, h, i % w, i / w) == 0);
        assert(next_code(cells[i], 0) == cells[i]);
    }
    assert(next_generation(cells, w, h) =~= cells);
}

/// Law: an Alive cell with zero Alive neighbors never survives — on the next
/// step it holds the first vanishing state.
pub proof fn lemma_isolated_alive_cell_vanishes(cells: Seq<u8>, w: int, h: int, col: int, row: int)
    requires
        w >= 1,
        h >= 1,
        cells.len() == w * h,
        0 <= col < w,
        0 <= row < h,
        cells[cell_index(w, col, row)] == spec_cell_code(Cell::Alive),
        live_neighbors(cells, w, h, col, row) == 0,
    ensures
        next_generation(cells, w, h)[cell_index(w, col, row)] == spec_cell_code(Cell::Vanishing1),
{
    lemma_index_in_range(w, h, col, row);
    lemma_index_split(w, col, row);
}

/// A lone horizontal blinker: Alive exactly at (r, c-1), (r, c), (r, c+1),
/// every other cell Dead.
pub open spec fn blinker_horizontal(cells: Seq<u8>, w: int, h: int, c: int, r: int) -> bool {
    forall|x: int, y: int|
        #![trigger cell_index(w, x, y)]
        0 <= x < w && 0 <= y < h ==> cells[cell_index(w, x, y)] == (if y == r && (x == c - 1 || x
            == c || x == c + 1) {
            1u8
        } else {
            0u8
        })
}

/// The blinker one step on: the vertical line Alive at (r-1, c), (r, c),
/// (r+1, c), the former horizontal ends at their first vanishing step, every
/// other cell Dead.
pub open spec fn blinker_vertical_fading(cells: Seq<u8>, w: int, h: int, c: int, r: int) -> bool {
    forall|x: int, y: int|
        #![trigger cell_index(w, x, y)]
        0 <= x < w && 0 <= y < h ==> cells[cell_index(w, x, y)] == (if x == c && (y == r - 1 || y
            == r || y == r + 1) {
            1u8
        } else if y == r && (x == c - 1 || x == c + 1) {
            2u8
        } else {
            0u8
        })
}

/// The blinker two steps on: the horizontal line Alive again at (r, c-1),
/// (r, c), (r, c+1), the former vertical ends at their first vanishing step,
/// every other cell Dead.
pub open spec fn blinker_horizontal_fading(cells: Seq<u8>, w: int, h: int, c: int, r: int) -> bool {
    forall|x: int, y: int|
        #![trigger cell_index(w, x, y)]
        0 <= x < w && 0 <= y < h ==> cells[cell_index(w, x, y)] == (if y == r && (x == c - 1 || x
            == c || x == c + 1) {
            1u8
        } else if x == c && (y == r - 1 || y == r + 1) {
            2u8
        } else {
            0u8
        })
}

/// Law: a lone horizontal blinker with two cells of Dead margin on every
/// side steps to the vertical line centered on the same anchor; the former
/// end cells fade rather than dying outright.
pub proof fn lemma_blinker_steps_vertical(cells: Seq<u8>, w: int, h: int, c: int, r: int)
    requires
        w >= 1,
        h >= 1,
        cells.len() == w * h,
        2 <= r && r + 3 <= h,
        3 <= c && c + 4 <= w,
        blinker_horizontal(cells, w, h, c, r),
    ensures
        blinker_vertical_fading(next_generation(cells, w, h), w, h, c, r),
{
    let next = next_generation(cells, w, h);
    assert forall|x: int, y: int|
        #![trigger cell_index(w, x, y)]
        0 <= x < w && 0 <= y < h implies next[cell_index(w, x, y)] == (if x == c && (y == r - 1 || y
        == r || y == r + 1) {
        1u8
    } else if y == r && (x == c - 1 || x == c + 1) {
        2u8
    } else {
        0u8
    }) by {
        lemma_index_in_range(w, h, x, y);
        lemma_index_split(w, x, y);
        assert(next[cell_index(w, x, y)] == next_code(
            cells[cell_index(w, x, y)],
            live_neighbors(cells, w, h, x, y),
        ));
    }
}

/// Law: one more step restores the horizontal blinker — period two — with
/// the former vertical ends at their first vanishing step.
pub proof fn lemma_blinker_returns_horizontal(cells: Seq<u8>, w: int, h: int, c: int, r: int)
    requires
        w >= 1,
        h >= 1,
        cells.len() == w * h,
        2 <= r && r + 3 <= h,
        3 <= c && c + 4 <= w,
        blinker_vertical_fading(cells, w, h, c, r),
    ensures
        blinker_horizontal_fading(next_generation(cells, w, h), w, h, c, r),
{
    let next = next_generation(cells, w, h);
    assert forall|x: int, y: int|
        #![trigger cell_index(w, x, y)]
        0 <= x < w && 0 <= y < h implies next[cell_index(w, x, y)] == (if y == r && (x == c - 1 || x
        == c || x == c + 1) {
        1u8
    } else if x == c && (y == r - 1 || y == r + 1) {
        2u8
    } else {
        0u8
    }) by {
        lemma_index_in_range(w, h, x, y);
        lemma_index_split(w, x, y);
        assert(next[cell_index(w, x, y)] == next_code(
            cells[cell_index(w, x, y)],
            live_neighbors(cells, w, h, x, y),
        ));
    }
}

/// Law: taken together, a lone blinker with enough margin oscillates with
/// period two — two steps bring the Alive line back to its horizontal
/// position, decorated only with the fading former ends.
pub proof fn lemma_blinker_period_two(cells: Seq<u8>, w: int, h: int, c: int, r: int)
    requires
        w >= 1,
        h >= 1,
        cells.len() == w * h,
        2 <= r && r + 3 <= h,
        3 <= c && c + 4 <= w,
        blinker_horizontal(cells, w, h, c, r),
    ensures
        blinker_vertical_fading(next_generation(cells, w, h), w, h, c, r),
        blinker_horizontal_fading(
            next_generation(next_generation(cells, w, h), w, h),
            w,
            h,
            c,
            r,
        ),
{
    lemma_blinker_steps_vertical(cells, w, h, c, r);
    lemma_blinker_returns_horizontal(next_generation(cells, w, h), w, h, c, r);
}


} // verus!
