use vstd::prelude::*;

verus! {

/// What the player sees of a cell.
#[derive(Debug, Clone, Copy, PartialEq, Eq, Structural)]
pub enum CellState {
    /// Uncovered: the cell has been revealed and takes no further moves.
    Closed,
    /// Still hidden from the player.
    Open,
    /// Hidden and flagged by the player; a reveal leaves it alone.
    Marked,
}

/// One position of the grid.
#[derive(Debug, Clone, Copy, PartialEq, Eq, Structural)]
pub struct Cell {
    pub bomb: bool,
    pub nearby_mines: usize,
    pub state: CellState,
}

impl Cell {
    /// A hidden cell without a mine and with no mines around it.
    pub fn new() -> (c: Cell)
        ensures
            !c.bomb,
            c.nearby_mines == 0,
            c.state == CellState::Open,
    {
        Cell { bomb: false, nearby_mines: 0, state: CellState::Open }
    }

    pub fn set_bomb(&mut self)
        ensures
            final(self).bomb,
            final(self).nearby_mines == old(self).nearby_mines,
            final(self).state == old(self).state,
    {
        self.bomb = true;
    }

    pub(crate) fn add_nearby_mine(&mut self)
        requires
            old(self).nearby_mines < usize::MAX,
        ensures
            final(self).bomb == old(self).bomb,
            final(self).nearby_mines == old(self).nearby_mines + 1,
            final(self).state == old(self).state,
    {
        self.nearby_mines = self.nearby_mines + 1;
    }

    pub fn mine(&self) -> (r: bool)
        ensures
            r == self.bomb,
    {
        self.bomb
    }

    pub fn nearby_mines(&self) -> (r: usize)
        ensures
            r == self.nearby_mines,
    {
        self.nearby_mines
    }

    pub fn state(&self) -> (r: &CellState)
        ensures
            *r == self.state,
    {
        &self.state
    }
}

} // verus!
