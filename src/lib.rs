//! A Minesweeper board engine: board generation with random mine placement,
//! adjacency counts, and a flood-fill reveal, each with a verified contract.

mod board;
mod cell;
mod flood;
mod game;
mod grid;
mod opts;
mod random;

pub use board::{counted, laid_mines, mine_total, mines_in, nth_free};
pub use cell::{Cell, CellState};
pub use flood::{
    after_reveal, flood_region, floodable, index_set, lemma_reveal_numbered_cell,
    lemma_reveal_uncovers_only_safe_cells,
    lemma_reveal_twice_uncovers_nothing, revealed_by, uncoverable,
};
pub use game::{resolve_mines_count, stored_opts, well_formed, Game, GameError, MoveOutcome};
pub use grid::{
    adjacent_mines, lemma_neighbor_count_corner, lemma_neighbor_count_edge,
    lemma_neighbor_count_interior, nbr, neighbor_count,
};
pub use opts::{cell_total, resolved_mines, valid_opts, GameOpts};
