use vstd::prelude::*;
use crate::cell::{Cell, CellState};
use crate::grid::{lemma_nbr_in_grid, nbr};

verus! {

/// A cell that a flood may reach: one without a mine, which is also hidden
/// (neither uncovered nor flagged) when `hidden_only` holds.
pub open spec fn floodable(cells: Seq<Cell>, j: int, hidden_only: bool) -> bool {
    &&& !cells[j].bomb
    &&& hidden_only ==> cells[j].state == CellState::Open
}

/// A cell that a reveal may uncover: hidden, not flagged, and without a mine.
pub open spec fn uncoverable(cells: Seq<Cell>, j: int) -> bool {
    floodable(cells, j, true)
}

/// Every cell of `s` with no mines around it has each of its floodable
/// neighbours in `s` too.
pub open spec fn closed_under_flood(
    cells: Seq<Cell>,
    w: int,
    h: int,
    hidden_only: bool,
    s: Set<int>,
) -> bool {
    forall|i: int, k: int|
        #![trigger s.contains(i), nbr(w, h, i, k)]
        s.contains(i) && 0 <= i < cells.len() && cells[i].nearby_mines == 0 && 0 <= k < 9 && nbr(
            w,
            h,
            i,
            k,
        ) is Some && floodable(cells, nbr(w, h, i, k)->0, hidden_only) ==> s.contains(
            nbr(w, h, i, k)->0,
        )
}

/// Cell `j` lies in every set that holds `t` and is closed under the flood.
pub open spec fn in_flood(
    cells: Seq<Cell>,
    w: int,
    h: int,
    hidden_only: bool,
    t: int,
    j: int,
) -> bool {
    &&& 0 <= j < cells.len()
    &&& forall|s: Set<int>|
        s.contains(t) && closed_under_flood(cells, w, h, hidden_only, s) ==> #[trigger] s.contains(j)
}

/// The cells that a flood from `t` reaches: the least set that holds `t` and
/// is closed under the flood. These are the cells reached from `t` through a
/// chain of neighbours, each floodable, in which every cell but the last has
/// no mines around it.
pub open spec fn flood_region(
    cells: Seq<Cell>,
    w: int,
    h: int,
    hidden_only: bool,
    t: int,
) -> Set<int> {
    Set::new(|j: int| in_flood(cells, w, h, hidden_only, t, j))
}

/// The cells that a move on `t` uncovers: the flood from `t` when `t` is
/// uncoverable, none otherwise.
pub open spec fn revealed_by(cells: Seq<Cell>, w: int, h: int, t: int) -> Set<int> {
    if 0 <= t < cells.len() && uncoverable(cells, t) {
        flood_region(cells, w, h, true, t)
    } else {
        Set::empty()
    }
}

/// `c`, uncovered.
pub open spec fn uncovered(c: Cell) -> Cell {
    Cell { state: CellState::Closed, ..c }
}

/// The cells after a move on `t` that hits no mine.
pub open spec fn after_reveal(cells: Seq<Cell>, w: int, h: int, t: int) -> Seq<Cell> {
    Seq::new(
        cells.len(),
        |j: int|
            if revealed_by(cells, w, h, t).contains(j) {
                uncovered(cells[j])
            } else {
                cells[j]
            },
    )
}

/// The indices held by `v`.
pub open spec fn index_set(v: Seq<usize>) -> Set<int> {
    Set::new(|j: int| 0 <= j <= usize::MAX && v.contains(j as usize))
}

/// Each floodable neighbour of cell `i` is in `s`.
pub open spec fn expanded(
    cells: Seq<Cell>,
    w: int,
    h: int,
    hidden_only: bool,
    s: Set<int>,
    i: int,
) -> bool {
    forall|k: int|
        #![trigger nbr(w, h, i, k)]
        0 <= k < 9 && nbr(w, h, i, k) is Some && floodable(cells, nbr(w, h, i, k)->0, hidden_only)
            ==> s.contains(
            nbr(w, h, i, k)->0,
        )
}

/// `v` is in strictly increasing order.
pub open spec fn increasing(v: Seq<usize>) -> bool {
    forall|a: int, b: int| 0 <= a < b < v.len() ==> v[a] < v[b]
}

/// A second move on the same cell uncovers nothing: after a move on a cell
/// without a mine, that cell is no longer hidden.
pub proof fn lemma_reveal_twice_uncovers_nothing(cells: Seq<Cell>, w: int, h: int, t: int)
    requires
        0 <= t < cells.len(),
        !cells[t].bomb,
    ensures
        revealed_by(after_reveal(cells, w, h, t), w, h, t) == Set::<int>::empty(),
{
    let after = after_reveal(cells, w, h, t);
    if uncoverable(cells, t) {
        assert(flood_region(cells, w, h, true, t).contains(t));
        assert(after[t].state == CellState::Closed);
    } else {
        assert(after =~= cells);
    }
}

/// A move on an uncoverable cell with mines around it uncovers that cell alone.
pub proof fn lemma_reveal_numbered_cell(cells: Seq<Cell>, w: int, h: int, t: int)
    requires
        0 <= t < cells.len(),
        uncoverable(cells, t),
        cells[t].nearby_mines != 0,
    ensures
        revealed_by(cells, w, h, t) == set![t],
{
    let single = set![t];
    assert(closed_under_flood(cells, w, h, true, single));
    assert forall|j: int| flood_region(cells, w, h, true, t).contains(j) <==> single.contains(j) by {
        if flood_region(cells, w, h, true, t).contains(j) {
            assert(single.contains(j));
        }
    }
    assert(flood_region(cells, w, h, true, t) =~= single);
}

/// A move uncovers only hidden cells without a mine, and always the cell it
/// was made on when that cell is one of them.
pub proof fn lemma_reveal_uncovers_only_safe_cells(cells: Seq<Cell>, w: int, h: int, t: int)
    requires
        0 < w,
        cells.len() == w * h,
        0 <= t < cells.len(),
    ensures
        forall|j: int| #[trigger]
            revealed_by(cells, w, h, t).contains(j) ==> 0 <= j < cells.len() && uncoverable(cells, j),
        uncoverable(cells, t) ==> revealed_by(cells, w, h, t).contains(t),
{
    let safe = Set::new(|j: int| 0 <= j < cells.len() && uncoverable(cells, j));
    if uncoverable(cells, t) {
        assert forall|i: int, k: int| safe.contains(i) && #[trigger] nbr(w, h, i, k) is Some implies 0
            <= nbr(w, h, i, k)->0 < cells.len() by {
            lemma_nbr_in_grid(w, h, i, k);
        }
        assert(closed_under_flood(cells, w, h, true, safe));
        assert forall|j: int| #[trigger] revealed_by(cells, w, h, t).contains(j) implies 0 <= j
            < cells.len() && uncoverable(cells, j) by {
            assert(in_flood(cells, w, h, true, t, j));
            assert(safe.contains(j));
        }
    }
}

/// A move on a hidden mine, or on a cell that is not hidden, uncovers nothing.
pub proof fn lemma_reveal_elsewhere_uncovers_nothing(cells: Seq<Cell>, w: int, h: int, t: int)
    requires
        0 <= t < cells.len(),
        !uncoverable(cells, t),
    ensures
        revealed_by(cells, w, h, t) == Set::<int>::empty(),
        after_reveal(cells, w, h, t) == cells,
{
    assert(after_reveal(cells, w, h, t) =~= cells);
}

} // verus!
