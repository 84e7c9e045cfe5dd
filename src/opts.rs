use vstd::prelude::*;

verus! {

/// The settings of a game: the grid's size and how many mines it holds.
/// A percentage, when present, takes precedence over `mines_count`.
#[derive(Debug, Clone, Copy)]
pub struct GameOpts {
    pub width: usize,
    pub height: usize,
    pub mines_count: usize,
    pub mines_percentage: Option<usize>,
}

/// The number of cells of a `width` by `height` grid.
pub open spec fn cell_total(opts: GameOpts) -> int {
    opts.width as int * opts.height as int
}

/// The number of mines that `opts` asks for: `floor(cells * percentage / 100)`
/// when a percentage is given, `mines_count` otherwise.
pub open spec fn resolved_mines(opts: GameOpts) -> int {
    match opts.mines_percentage {
        Some(p) => cell_total(opts) * p as int / 100,
        None => opts.mines_count as int,
    }
}

/// Settings from which a board can be built: a non-empty grid whose cell count
/// fits in `usize`, with fewer mines than cells.
pub open spec fn valid_opts(opts: GameOpts) -> bool {
    &&& opts.width >= 1
    &&& opts.height >= 1
    &&& cell_total(opts) <= usize::MAX
    &&& resolved_mines(opts) < cell_total(opts)
}

impl GameOpts {
    pub fn preset_8x8_10_mines() -> (o: GameOpts)
        ensures
            o == (GameOpts { width: 8, height: 8, mines_count: 10, mines_percentage: None }),
    {
        GameOpts { width: 8, height: 8, mines_count: 10, mines_percentage: None }
    }

    pub fn preset_16x16_40_mines() -> (o: GameOpts)
        ensures
            o == (GameOpts { width: 16, height: 16, mines_count: 40, mines_percentage: None }),
    {
        GameOpts { width: 16, height: 16, mines_count: 40, mines_percentage: None }
    }

    /// The expert grid: 30 by 16 with 99 mines.
    pub fn preset_30x16_40_mines() -> (o: GameOpts)
        ensures
            o == (GameOpts { width: 30, height: 16, mines_count: 99, mines_percentage: None }),
    {
        GameOpts { width: 30, height: 16, mines_count: 99, mines_percentage: None }
    }

    pub fn new(width: usize, height: usize, mines_count: usize, mines_percentage: Option<usize>) -> (o:
        GameOpts)
        ensures
            o == (GameOpts { width, height, mines_count, mines_percentage }),
    {
        GameOpts { width, height, mines_count, mines_percentage }
    }

    pub fn width(&self) -> (r: usize)
        ensures
            r == self.width,
    {
        self.width
    }

    pub fn height(&self) -> (r: usize)
        ensures
            r == self.height,
    {
        self.height
    }

    pub fn mines_count(&self) -> (r: usize)
        ensures
            r == self.mines_count,
    {
        self.mines_count
    }
}

impl Default for GameOpts {
    fn default() -> (o: GameOpts)
        ensures
            o == (GameOpts { width: 8, height: 8, mines_count: 10, mines_percentage: None }),
    {
        GameOpts { width: 8, height: 8, mines_count: 10, mines_percentage: None }
    }
}

} // verus!
