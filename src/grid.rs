use vstd::prelude::*;
use crate::cell::Cell;

verus! {

// Cells are stored row by row: the cell in row `y` and column `x` of a grid
// `w` cells wide has index `y * w + x`. The 3 by 3 block around a cell is
// walked by an offset `k` in `0..9`: row offset `k / 3 - 1`, column offset
// `k % 3 - 1`; offset 4 is the cell itself.

/// The index of the cell at offset `k` from cell `i`, if that cell is on the
/// grid and is not `i` itself: the grid-clipped 8-neighbourhood, without wraparound.
pub open spec fn nbr(w: int, h: int, i: int, k: int) -> Option<int> {
    let ny = i / w + k / 3 - 1;
    let nx = i % w + k % 3 - 1;
    if k != 4 && 0 <= ny < h && 0 <= nx < w {
        Some(ny * w + nx)
    } else {
        None
    }
}

/// The number of neighbours of cell `i` among the offsets below `k`.
pub open spec fn neighbors_below(w: int, h: int, i: int, k: int) -> int
    decreases k,
{
    if k <= 0 {
        0
    } else {
        neighbors_below(w, h, i, k - 1) + if nbr(w, h, i, k - 1) is Some { 1int } else { 0 }
    }
}

/// The number of cells adjacent to cell `i`.
pub open spec fn neighbor_count(w: int, h: int, i: int) -> int {
    neighbors_below(w, h, i, 9)
}

/// The number of mines among the neighbours of cell `i` at offsets below `k`.
pub open spec fn mines_below(cells: Seq<Cell>, w: int, h: int, i: int, k: int) -> int
    decreases k,
{
    if k <= 0 {
        0
    } else {
        mines_below(cells, w, h, i, k - 1) + match nbr(w, h, i, k - 1) {
            Some(j) => if cells[j].bomb { 1int } else { 0 },
            None => 0,
        }
    }
}

/// The number of mines adjacent to cell `i`.
pub open spec fn adjacent_mines(cells: Seq<Cell>, w: int, h: int, i: int) -> int {
    mines_below(cells, w, h, i, 9)
}

/// Row `y`, column `x` of a `w` by `h` grid has an index below `w * h`, from
/// which the row and column come back by division.
pub proof fn lemma_coords(w: int, h: int, y: int, x: int)
    requires
        0 <= y < h,
        0 <= x < w,
    ensures
        0 <= y * w + x < w * h,
        (y * w + x) / w == y,
        (y * w + x) % w == x,
{
    assert(0 <= y * w + x < w * h) by (nonlinear_arith)
        requires
            0 <= y < h,
            0 <= x < w,
    ;
    vstd::arithmetic::div_mod::lemma_fundamental_div_mod_converse(y * w + x, w, y, x);
}

/// An index below `w * h` lies in a row below `h` and a column below `w`.
pub proof fn lemma_row_col(w: int, h: int, i: int)
    requires
        0 < w,
        0 <= i < w * h,
    ensures
        0 <= i / w < h,
        0 <= i % w < w,
{
    vstd::arithmetic::div_mod::lemma_fundamental_div_mod(i, w);
    let q = i / w;
    let r = i % w;
    assert(0 <= r < w);
    assert(0 <= q < h) by (nonlinear_arith)
        requires
            i == w * q + r,
            0 <= r < w,
            0 <= i < w * h,
            0 < w,
    ;
}

/// Every neighbour of a cell of the grid is a cell of the grid.
pub proof fn lemma_nbr_in_grid(w: int, h: int, i: int, k: int)
    requires
        0 < w,
        0 <= i < w * h,
    ensures
        nbr(w, h, i, k) matches Some(j) ==> 0 <= j < w * h && j != i,
{
    lemma_row_col(w, h, i);
    if let Some(j) = nbr(w, h, i, k) {
        let ny = i / w + k / 3 - 1;
        let nx = i % w + k % 3 - 1;
        lemma_coords(w, h, ny, nx);
        vstd::arithmetic::div_mod::lemma_fundamental_div_mod(i, w);
        assert(i == (i / w) * w + i % w) by (nonlinear_arith)
            requires
                i == w * (i / w) + i % w,
        ;
        if j == i {
            lemma_coords(w, h, i / w, i % w);
            assert(k / 3 == 1 && k % 3 == 1);
            assert(k == 4);
        }
    }
}

/// The index of the neighbour of cell `i` at offset `k`, if there is one.
pub fn neighbor(w: usize, h: usize, i: usize, k: usize) -> (r: Option<usize>)
    requires
        w >= 1,
        w * h <= usize::MAX,
        i < w * h,
        k < 9,
    ensures
        r matches Some(j) ==> nbr(w as int, h as int, i as int, k as int) == Some(j as int),
        r is None ==> nbr(w as int, h as int, i as int, k as int) is None,
{
    proof {
        lemma_row_col(w as int, h as int, i as int);
    }
    let y = i / w;
    let x = i % w;
    let dy = k / 3;
    let dx = k % 3;
    if k == 4 {
        return None;
    }
    let ny: usize = if dy == 0 {
        if y == 0 {
            return None;
        }
        y - 1
    } else if dy == 1 {
        y
    } else {
        if y + 1 >= h {
            return None;
        }
        y + 1
    };
    let nx: usize = if dx == 0 {
        if x == 0 {
            return None;
        }
        x - 1
    } else if dx == 1 {
        x
    } else {
        if x + 1 >= w {
            return None;
        }
        x + 1
    };
    proof {
        lemma_coords(w as int, h as int, ny as int, nx as int);
    }
    Some(ny * w + nx)
}

/// A corner cell of a grid at least 2 by 2 has exactly 3 neighbours.
pub proof fn lemma_neighbor_count_corner(w: int, h: int, i: int)
    requires
        w >= 2,
        h >= 2,
        0 <= i < w * h,
        i / w == 0 || i / w == h - 1,
        i % w == 0 || i % w == w - 1,
    ensures
        neighbor_count(w, h, i) == 3,
{
    reveal_with_fuel(neighbors_below, 10);
}

/// A cell on an edge of a grid at least 2 by 2, but not in a corner, has
/// exactly 5 neighbours.
pub proof fn lemma_neighbor_count_edge(w: int, h: int, i: int)
    requires
        w >= 2,
        h >= 2,
        0 <= i < w * h,
        (i / w == 0 || i / w == h - 1) != (i % w == 0 || i % w == w - 1),
    ensures
        neighbor_count(w, h, i) == 5,
{
    lemma_row_col(w, h, i);
    reveal_with_fuel(neighbors_below, 10);
}

/// A cell off every edge has exactly 8 neighbours.
pub proof fn lemma_neighbor_count_interior(w: int, h: int, i: int)
    requires
        0 <= i < w * h,
        0 < i / w < h - 1,
        0 < i % w < w - 1,
    ensures
        neighbor_count(w, h, i) == 8,
{
    reveal_with_fuel(neighbors_below, 10);
}


/// The count of mines around a cell depends on where the mines are alone.
pub proof fn lemma_mines_below_same_bombs(a: Seq<Cell>, b: Seq<Cell>, w: int, h: int, i: int, k: int)
    requires
        0 < w,
        a.len() == b.len(),
        a.len() == w * h,
        0 <= i < w * h,
        forall|x: int| 0 <= x < a.len() ==> #[trigger] a[x].bomb == b[x].bomb,
    ensures
        mines_below(a, w, h, i, k) == mines_below(b, w, h, i, k),
    decreases k,
{
    if k > 0 {
        lemma_mines_below_same_bombs(a, b, w, h, i, k - 1);
        lemma_nbr_in_grid(w, h, i, k - 1);
    }
}


pub proof fn lemma_mines_below_bounds(cells: Seq<Cell>, w: int, h: int, i: int, k: int)
    requires
        0 <= k,
    ensures
        0 <= mines_below(cells, w, h, i, k) <= k,
    decreases k,
{
    if k > 0 {
        lemma_mines_below_bounds(cells, w, h, i, k - 1);
    }
}

} // verus!
