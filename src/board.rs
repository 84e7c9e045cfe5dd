use vstd::prelude::*;
use crate::cell::{Cell, CellState};
use crate::grid::{adjacent_mines, lemma_mines_below_bounds, lemma_mines_below_same_bombs};

verus! {

/// The number of mines among the first `j` cells.
pub open spec fn mines_in(cells: Seq<Cell>, j: int) -> int
    decreases j,
{
    if j <= 0 {
        0
    } else {
        mines_in(cells, j - 1) + if cells[j - 1].bomb { 1int } else { 0 }
    }
}

/// The number of mines on the whole board.
pub open spec fn mine_total(cells: Seq<Cell>) -> int {
    mines_in(cells, cells.len() as int)
}

/// The number of cells without a mine among the first `j` cells.
pub open spec fn free_before(cells: Seq<Cell>, j: int) -> int {
    j - mines_in(cells, j)
}

/// The index of the `d`-th cell without a mine (counting from 0) at or after
/// index `j`, or the board's length when there are not that many.
pub open spec fn nth_free(cells: Seq<Cell>, d: int, j: int) -> int
    decreases cells.len() - j,
{
    if j >= cells.len() || j < 0 {
        cells.len() as int
    } else if !cells[j].bomb {
        if d == 0 {
            j
        } else {
            nth_free(cells, d - 1, j + 1)
        }
    } else {
        nth_free(cells, d, j + 1)
    }
}

/// A hidden cell without a mine and with no mines around it.
pub open spec fn clear_cell() -> Cell {
    Cell { bomb: false, nearby_mines: 0, state: CellState::Open }
}

/// `c` with a mine on it.
pub open spec fn mined(c: Cell) -> Cell {
    Cell { bomb: true, ..c }
}

/// The board of `n` cells after the first `m` mines have been placed by the
/// draws: the `i`-th mine goes on the cell without a mine whose rank among
/// such cells is `draws[i] % (n - i)`.
pub open spec fn laid_mines(n: int, draws: Seq<usize>, m: int) -> Seq<Cell>
    decreases m,
{
    if m <= 0 {
        Seq::new(n as nat, |j: int| clear_cell())
    } else {
        let prev = laid_mines(n, draws, m - 1);
        let k = nth_free(prev, draws[m - 1] as int % (n - (m - 1)), 0);
        prev.update(k, mined(prev[k]))
    }
}

/// `cells`, on a `w` by `h` grid, with each cell holding the number of mines
/// around it; mines and states are kept.
pub open spec fn counted(cells: Seq<Cell>, w: int, h: int) -> Seq<Cell> {
    Seq::new(
        cells.len(),
        |i: int|
            Cell {
                bomb: cells[i].bomb,
                nearby_mines: adjacent_mines(cells, w, h, i) as usize,
                state: cells[i].state,
            },
    )
}

pub proof fn lemma_mines_in_bounds(cells: Seq<Cell>, j: int)
    requires
        0 <= j,
    ensures
        0 <= mines_in(cells, j) <= j,
    decreases j,
{
    if j > 0 {
        lemma_mines_in_bounds(cells, j - 1);
    }
}

/// Putting a mine on a cell without one adds one to the count of every
/// prefix that holds that cell.
pub proof fn lemma_mines_in_update(cells: Seq<Cell>, k: int, c: Cell, j: int)
    requires
        0 <= k < cells.len(),
        !cells[k].bomb,
        c.bomb,
        0 <= j <= cells.len(),
    ensures
        mines_in(cells.update(k, c), j) == mines_in(cells, j) + if k < j { 1int } else { 0 },
    decreases j,
{
    if j > 0 {
        lemma_mines_in_update(cells, k, c, j - 1);
    }
}

/// Two boards with mines on the same cells count the same mines.
pub proof fn lemma_mines_in_same_bombs(a: Seq<Cell>, b: Seq<Cell>, j: int)
    requires
        a.len() == b.len(),
        0 <= j <= a.len(),
        forall|x: int| 0 <= x < a.len() ==> #[trigger] a[x].bomb == b[x].bomb,
    ensures
        mines_in(a, j) == mines_in(b, j),
    decreases j,
{
    if j > 0 {
        lemma_mines_in_same_bombs(a, b, j - 1);
    }
}


/// Counting the mines around each cell keeps the mines where they are, and
/// each count is the number of mines around that cell on the new board.
pub proof fn lemma_counted(cells: Seq<Cell>, w: int, h: int)
    requires
        0 < w,
        cells.len() == w * h,
    ensures
        mine_total(counted(cells, w, h)) == mine_total(cells),
        forall|i: int|
            0 <= i < cells.len() ==> (#[trigger] counted(cells, w, h)[i]).nearby_mines
                == adjacent_mines(counted(cells, w, h), w, h, i),
{
    let c = counted(cells, w, h);
    lemma_mines_in_same_bombs(c, cells, cells.len() as int);
    assert forall|i: int| 0 <= i < cells.len() implies (#[trigger] c[i]).nearby_mines
        == adjacent_mines(c, w, h, i) by {
        lemma_mines_below_same_bombs(c, cells, w, h, i, 9);
        lemma_mines_below_bounds(cells, w, h, i, 9);
    }
}


pub proof fn lemma_no_mines(cells: Seq<Cell>, j: int)
    requires
        0 <= j <= cells.len(),
        forall|x: int| 0 <= x < cells.len() ==> !(#[trigger] cells[x]).bomb,
    ensures
        mines_in(cells, j) == 0,
    decreases j,
{
    if j > 0 {
        lemma_no_mines(cells, j - 1);
    }
}

} // verus!
