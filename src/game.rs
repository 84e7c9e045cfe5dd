use vstd::prelude::*;
use crate::board::{
    counted, laid_mines, lemma_mines_in_bounds, lemma_mines_in_update,
    lemma_counted, lemma_no_mines, mine_total, mined, nth_free, free_before,
};
use crate::cell::{Cell, CellState};
use crate::flood::{
    after_reveal, closed_under_flood, expanded, flood_region, floodable, in_flood, increasing,
    index_set, lemma_reveal_elsewhere_uncovers_nothing, revealed_by, uncovered,
};
use crate::grid::{adjacent_mines, lemma_nbr_in_grid, mines_below, nbr, neighbor};
use crate::opts::{cell_total, resolved_mines, valid_opts, GameOpts};
use crate::random::random_below;

verus! {

broadcast use vstd::seq_lib::lemma_seq_contains_after_push;

/// Why a call was refused.
#[derive(Debug, Clone, Copy, PartialEq, Eq, Structural)]
pub enum GameError {
    /// The settings describe no playable board: an empty grid, a grid whose
    /// cell count does not fit in `usize`, or as many mines as cells or more.
    InvalidConfig,
    /// An index at or past the number of cells.
    IndexOutOfRange,
}

/// What a move did.
#[derive(Debug, Clone, PartialEq, Eq)]
pub enum MoveOutcome {
    /// The move hit a hidden mine.
    Loss,
    /// The indices of the cells that the move uncovered, in increasing order.
    Revealed(Vec<usize>),
}

/// The settings kept by a board: those it was made with, with `mines_count`
/// set to the number of mines they ask for.
pub open spec fn stored_opts(opts: GameOpts) -> GameOpts {
    GameOpts { mines_count: resolved_mines(opts) as usize, ..opts }
}

/// A board whose cells match its settings.
pub open spec fn well_formed(opts: GameOpts, cells: Seq<Cell>) -> bool {
    &&& valid_opts(opts)
    &&& opts.mines_count == resolved_mines(opts)
    &&& cells.len() == cell_total(opts)
}

/// One game: its settings and its cells, row by row.
pub struct Game {
    opts: GameOpts,
    map: Vec<Cell>,
}

/// Checks `opts` and returns the number of mines it asks for.
pub fn resolve_mines_count(opts: &GameOpts) -> (r: Result<usize, GameError>)
    ensures
        r is Ok <==> valid_opts(*opts),
        r matches Ok(m) ==> m == resolved_mines(*opts),
        r matches Err(e) ==> e == GameError::InvalidConfig,
{
    if opts.width == 0 || opts.height == 0 {
        return Err(GameError::InvalidConfig);
    }
    let n = match opts.width.checked_mul(opts.height) {
        Some(n) => n,
        None => {
            return Err(GameError::InvalidConfig);
        },
    };
    let mines: usize = match opts.mines_percentage {
        Some(p) => {
            assert((n as int) * (p as int) <= 0xffff_ffff_ffff_ffffu128 * 0xffff_ffff_ffff_ffffu128)
                by (nonlinear_arith)
                requires
                    n <= 0xffff_ffff_ffff_ffffu64,
                    p <= 0xffff_ffff_ffff_ffffu64,
            ;
            let m: u128 = (n as u128) * (p as u128) / 100;
            if m >= n as u128 {
                return Err(GameError::InvalidConfig);
            }
            m as usize
        },
        None => opts.mines_count,
    };
    if mines >= n {
        return Err(GameError::InvalidConfig);
    }
    Ok(mines)
}

/// Puts a mine on the `d`-th cell without one (counting from 0) and returns
/// its index.
fn place_mine(map: &mut Vec<Cell>, d: usize) -> (k: usize)
    requires
        d < free_before(old(map)@, old(map)@.len() as int),
    ensures
        k == nth_free(old(map)@, d as int, 0),
        k < old(map)@.len(),
        !old(map)@[k as int].bomb,
        final(map)@ == old(map)@.update(k as int, mined(old(map)@[k as int])),
{
    let n = map.len();
    let mut j: usize = 0;
    let mut c: usize = 0;
    proof {
        lemma_mines_in_bounds(map@, n as int);
    }
    while map[j].bomb || c < d
        invariant
            n == map.len(),
            j < n,
            c <= d,
            c == free_before(map@, j as int),
            d < free_before(map@, n as int),
            nth_free(map@, d as int, 0) == nth_free(map@, (d - c) as int, j as int),
        decreases n - j,
    {
        if !map[j].bomb {
            c = c + 1;
        }
        proof {
            if j + 1 == n {
                assert(free_before(map@, n as int) == c);
            }
        }
        j = j + 1;
    }
    let mut cell = map[j];
    cell.set_bomb();
    map.set(j, cell);
    j
}

/// The cell at index `i` of `map`, holding the number of mines around it.
fn count_around(map: &Vec<Cell>, w: usize, h: usize, i: usize) -> (c: Cell)
    requires
        w >= 1,
        w * h <= usize::MAX,
        map@.len() == w * h,
        i < w * h,
    ensures
        c == counted(map@, w as int, h as int)[i as int],
{
    let mut c = Cell { bomb: map[i].bomb, nearby_mines: 0, state: map[i].state };
    for k in 0..9
        invariant
            w >= 1,
            w * h <= usize::MAX,
            map@.len() == w * h,
            i < w * h,
            c.bomb == map@[i as int].bomb,
            c.state == map@[i as int].state,
            c.nearby_mines == mines_below(map@, w as int, h as int, i as int, k as int),
            c.nearby_mines <= k,
    {
        if let Some(j) = neighbor(w, h, i, k) {
            proof {
                lemma_nbr_in_grid(w as int, h as int, i as int, k as int);
            }
            if map[j].mine() {
                c.add_nearby_mine();
            }
        }
    }
    c
}

impl Game {
    #[verifier::type_invariant]
    spec fn inv(&self) -> bool {
        well_formed(self.opts, self.map@)
    }

    /// The settings of this board.
    pub closed spec fn options(&self) -> GameOpts {
        self.opts
    }

    /// The cells of this board, row by row.
    pub closed spec fn cells(&self) -> Seq<Cell> {
        self.map@
    }

    /// The cells of `map`, each holding the number of mines around it; mines
    /// and states are kept.
    fn calculate_mines_count(map: &Vec<Cell>, opts: &GameOpts) -> (r: Vec<Cell>)
        requires
            opts.width >= 1,
            opts.height >= 1,
            cell_total(*opts) <= usize::MAX,
            map@.len() == cell_total(*opts),
        ensures
            r@ == counted(map@, opts.width as int, opts.height as int),
    {
        let n = map.len();
        let mut r: Vec<Cell> = Vec::new();
        for i in 0..n
            invariant
                n == map@.len(),
                opts.width >= 1,
                opts.height >= 1,
                cell_total(*opts) <= usize::MAX,
                map@.len() == cell_total(*opts),
                r@.len() == i,
                forall|x: int|
                    0 <= x < i ==> #[trigger] r@[x] == counted(
                        map@,
                        opts.width as int,
                        opts.height as int,
                    )[x],
        {
            let c = count_around(map, opts.width, opts.height, i);
            r.push(c);
        }
        assert(r@ =~= counted(map@, opts.width as int, opts.height as int));
        r
    }

    /// A board for `opts` whose mines are placed by `draws`: the `i`-th mine
    /// goes on the cell without a mine whose rank among such cells is
    /// `draws[i] % (cells - i)`. Every cell is hidden and holds the number of
    /// mines around it.
    pub fn from_draws(opts: GameOpts, draws: &Vec<usize>) -> (r: Result<Game, GameError>)
        requires
            valid_opts(opts) ==> draws@.len() >= resolved_mines(opts),
        ensures
            r is Ok <==> valid_opts(opts),
            r matches Err(e) ==> e == GameError::InvalidConfig,
            r matches Ok(g) ==> {
                &&& g.options() == stored_opts(opts)
                &&& g.cells() == counted(
                    laid_mines(cell_total(opts), draws@, resolved_mines(opts)),
                    opts.width as int,
                    opts.height as int,
                )
                &&& g.cells().len() == cell_total(opts)
                &&& mine_total(g.cells()) == resolved_mines(opts)
                &&& forall|i: int|
                    0 <= i < g.cells().len() ==> {
                        &&& (#[trigger] g.cells()[i]).nearby_mines == adjacent_mines(
                            g.cells(),
                            opts.width as int,
                            opts.height as int,
                            i,
                        )
                        &&& g.cells()[i].state == CellState::Open
                    }
            },
    {
        let m = match resolve_mines_count(&opts) {
            Ok(m) => m,
            Err(e) => {
                return Err(e);
            },
        };
        let n = opts.width * opts.height;
        let mut map: Vec<Cell> = Vec::new();
        for j in 0..n
            invariant
                map@ == laid_mines(n as int, draws@, 0).take(j as int),
        {
            map.push(Cell::new());
            assert(map@ =~= laid_mines(n as int, draws@, 0).take(j + 1));
        }
        assert(map@ =~= laid_mines(n as int, draws@, 0));
        proof {
            lemma_no_mines(map@, n as int);
        }
        for i in 0..m
            invariant
                m < n,
                draws@.len() >= m,
                map@.len() == n,
                map@ == laid_mines(n as int, draws@, i as int),
                mine_total(map@) == i,
                forall|x: int| 0 <= x < n ==> (#[trigger] map@[x]).state == CellState::Open,
        {
            let d = draws[i] % (n - i);
            let ghost prev = map@;
            let k = place_mine(&mut map, d);
            proof {
                lemma_mines_in_update(prev, k as int, mined(prev[k as int]), n as int);
            }
        }
        let cells = Self::calculate_mines_count(&map, &opts);
        proof {
            lemma_counted(map@, opts.width as int, opts.height as int);
        }
        let stored = GameOpts { mines_count: m, ..opts };
        Ok(Game { opts: stored, map: cells })
    }

    /// A new board for `opts`, with its mines on cells drawn at random.
    /// Every cell is hidden and holds the number of mines around it.
    pub fn new(opts: GameOpts) -> (r: Result<Game, GameError>)
        ensures
            r is Ok <==> valid_opts(opts),
            r matches Err(e) ==> e == GameError::InvalidConfig,
            r matches Ok(g) ==> {
                &&& g.options() == stored_opts(opts)
                &&& g.cells().len() == cell_total(opts)
                &&& mine_total(g.cells()) == resolved_mines(opts)
                &&& forall|i: int|
                    0 <= i < g.cells().len() ==> {
                        &&& (#[trigger] g.cells()[i]).nearby_mines == adjacent_mines(
                            g.cells(),
                            opts.width as int,
                            opts.height as int,
                            i,
                        )
                        &&& g.cells()[i].state == CellState::Open
                    }
            },
    {
        let m = match resolve_mines_count(&opts) {
            Ok(m) => m,
            Err(e) => {
                return Err(e);
            },
        };
        let n = opts.width * opts.height;
        let mut draws: Vec<usize> = Vec::new();
        for i in 0..m
            invariant
                m < n,
                draws@.len() == i,
        {
            draws.push(random_below(n - i));
        }
        Self::from_draws(opts, &draws)
    }

    /// The region that a flood from an empty cell reaches, in increasing order:
    /// `None` unless `target_index` is on the board and its cell has no mine
    /// and no mines around it. From each reached cell with no mines around it
    /// the flood goes on to every neighbour without a mine, whether hidden,
    /// uncovered or flagged; it stops at cells with mines around them.
    pub fn check_empty_cells(&self, target_index: usize) -> (r: Option<Vec<usize>>)
        ensures
            r is Some <==> {
                &&& target_index < self.cells().len()
                &&& !self.cells()[target_index as int].bomb
                &&& self.cells()[target_index as int].nearby_mines == 0
            },
            r matches Some(v) ==> {
                &&& index_set(v@) == flood_region(
                    self.cells(),
                    self.options().width as int,
                    self.options().height as int,
                    false,
                    target_index as int,
                )
                &&& increasing(v@)
            },
    {
        if target_index >= self.map.len() || self.map[target_index].bomb
            || self.map[target_index].nearby_mines != 0 {
            return None;
        }
        Some(self.flood(target_index, false))
    }

    /// The cells that a flood from `t` reaches, in increasing order. With
    /// `hidden_only` the flood enters hidden cells only.
    fn flood(&self, t: usize, hidden_only: bool) -> (v: Vec<usize>)
        requires
            t < self.cells().len(),
            floodable(self.cells(), t as int, hidden_only),
        ensures
            index_set(v@) == flood_region(
                self.cells(),
                self.options().width as int,
                self.options().height as int,
                hidden_only,
                t as int,
            ),
            increasing(v@),
    {
        proof {
            use_type_invariant(self);
        }
        let n = self.map.len();
        let w = self.opts.width;
        let h = self.opts.height;
        let ghost cells = self.map@;
        let mut seen: Vec<bool> = Vec::new();
        for j in 0..n
            invariant
                seen@.len() == j,
                forall|x: int| 0 <= x < j ==> !seen@[x],
        {
            seen.push(false);
        }
        seen.set(t, true);
        let ghost mut marked: Set<int> = set![t as int];
        let mut stack: Vec<usize> = Vec::new();
        if self.map[t].nearby_mines == 0 {
            stack.push(t);
            assert(stack@[0] == t);
        }
        proof {
            assert(in_flood(cells, w as int, h as int, hidden_only, t as int, t as int));
            vstd::set_lib::lemma_int_range(0, n as int);
            vstd::set_lib::lemma_len_subset(marked, vstd::set_lib::set_int_range(0, n as int));
        }
        while stack.len() > 0
            invariant
                cells == self.map@,
                n == cells.len(),
                well_formed(self.opts, cells),
                w == self.opts.width,
                h == self.opts.height,
                t < n,
                seen@.len() == n,
                forall|x: int| 0 <= x < n ==> (seen@[x] <==> marked.contains(x)),
                forall|x: int|
                    #![trigger marked.contains(x)]
                    marked.contains(x) ==> {
                        &&& 0 <= x < n
                        &&& in_flood(cells, w as int, h as int, hidden_only, t as int, x)
                        &&& floodable(cells, x, hidden_only)
                    },
                marked.contains(t as int),
                marked.finite(),
                marked.len() <= n,
                forall|q: int|
                    0 <= q < stack@.len() ==> marked.contains(#[trigger] stack@[q] as int)
                        && cells[stack@[q] as int].nearby_mines == 0,
                forall|x: usize|
                    #![trigger marked.contains(x as int)]
                    marked.contains(x as int) && cells[x as int].nearby_mines == 0 ==> expanded(
                        cells,
                        w as int,
                        h as int,
                        hidden_only,
                        marked,
                        x as int,
                    ) || stack@.contains(x),
            decreases n - marked.len(), stack.len(),
        {
            let ghost before_pop = stack@;
            let i = stack.pop().unwrap();
            proof {
                assert(before_pop =~= stack@.push(i));
                assert(marked.contains(before_pop[before_pop.len() - 1] as int));
            }
            let ghost start_len = marked.len();
            let ghost popped_len = stack.len();
            let mut k: usize = 0;
            while k < 9
                invariant
                    cells == self.map@,
                    n == cells.len(),
                    well_formed(self.opts, cells),
                    w == self.opts.width,
                    h == self.opts.height,
                    t < n,
                    i < n,
                    k <= 9,
                    marked.contains(i as int),
                    marked.contains(t as int),
                    cells[i as int].nearby_mines == 0,
                    seen@.len() == n,
                    forall|x: int| 0 <= x < n ==> (seen@[x] <==> marked.contains(x)),
                    forall|x: int|
                        #![trigger marked.contains(x)]
                        marked.contains(x) ==> {
                            &&& 0 <= x < n
                            &&& in_flood(cells, w as int, h as int, hidden_only, t as int, x)
                            &&& floodable(cells, x, hidden_only)
                        },
                    marked.finite(),
                    marked.len() <= n,
                    forall|q: int|
                        0 <= q < stack@.len() ==> marked.contains(#[trigger] stack@[q] as int)
                            && cells[stack@[q] as int].nearby_mines == 0,
                    forall|x: usize|
                        #![trigger marked.contains(x as int)]
                        marked.contains(x as int) && cells[x as int].nearby_mines == 0 && x != i
                            ==> expanded(cells, w as int, h as int, hidden_only, marked, x as int)
                            || stack@.contains(x),
                    forall|k2: int|
                        #![trigger nbr(w as int, h as int, i as int, k2)]
                        0 <= k2 < k && nbr(w as int, h as int, i as int, k2) is Some && floodable(
                            cells,
                            nbr(w as int, h as int, i as int, k2)->0,
                            hidden_only,
                        ) ==> marked.contains(nbr(w as int, h as int, i as int, k2)->0),
                    marked.len() >= start_len,
                    marked.len() == start_len ==> stack.len() == popped_len,
                decreases 9 - k,
            {
                if let Some(j) = neighbor(w, h, i, k) {
                    proof {
                        lemma_nbr_in_grid(w as int, h as int, i as int, k as int);
                    }
                    if !seen[j] && !self.map[j].bomb && (!hidden_only || self.map[j].state == CellState::Open) {
                        seen.set(j, true);
                        proof {
                            assert forall|s: Set<int>|
                                s.contains(t as int) && closed_under_flood(
                                    cells,
                                    w as int,
                                    h as int,
                                    hidden_only,
                                    s,
                                ) implies #[trigger] s.contains(j as int) by {
                                assert(s.contains(i as int));
                                assert(nbr(w as int, h as int, i as int, k as int) == Some(
                                    j as int,
                                ));
                            }
                            let ghost prev = marked;
                            marked = marked.insert(j as int);
                            assert forall|x: int| marked.contains(x) implies 0 <= x < n by {
                                if x != j as int {
                                    assert(prev.contains(x));
                                }
                            }
                            vstd::set_lib::lemma_int_range(0, n as int);
                            vstd::set_lib::lemma_len_subset(
                                marked,
                                vstd::set_lib::set_int_range(0, n as int),
                            );
                        }
                        if self.map[j].nearby_mines == 0 {
                            stack.push(j);
                        }
                    }
                }
                k = k + 1;
            }
        }
        proof {
            assert forall|i: int, k: int|
                #![trigger marked.contains(i), nbr(w as int, h as int, i, k)]
                marked.contains(i) && 0 <= i < cells.len() && cells[i].nearby_mines == 0 && 0 <= k
                    < 9 && nbr(w as int, h as int, i, k) is Some && floodable(
                    cells,
                    nbr(w as int, h as int, i, k)->0,
                    hidden_only,
                ) implies marked.contains(nbr(w as int, h as int, i, k)->0) by {
                assert(marked.contains((i as usize) as int));
                assert(!stack@.contains(i as usize));
            }
            assert(closed_under_flood(cells, w as int, h as int, hidden_only, marked));
            assert forall|j: int|
                flood_region(cells, w as int, h as int, hidden_only, t as int).contains(j)
                    <==> marked.contains(j) by {
                if flood_region(cells, w as int, h as int, hidden_only, t as int).contains(j) {
                    assert(in_flood(cells, w as int, h as int, hidden_only, t as int, j));
                    assert(marked.contains(j));
                }
            }
        }
        let mut out: Vec<usize> = Vec::new();
        for j in 0..n
            invariant
                n == cells.len(),
                seen@.len() == n,
                forall|x: int| 0 <= x < n ==> (seen@[x] <==> marked.contains(x)),
                forall|x: int| marked.contains(x) ==> 0 <= x < n,
                forall|q: int| 0 <= q < out@.len() ==> out@[q] < j,
                increasing(out@),
                forall|x: usize| x < j ==> (out@.contains(x) <==> marked.contains(x as int)),
                forall|x: usize| x >= j ==> !out@.contains(x),
        {
            if seen[j] {
                out.push(j);
            }
        }
        proof {
            assert forall|x: int|
                index_set(out@).contains(x) <==> flood_region(
                    cells,
                    w as int,
                    h as int,
                    hidden_only,
                    t as int,
                ).contains(x) by {
                if 0 <= x <= usize::MAX {
                    assert(marked.contains(x) <==> marked.contains((x as usize) as int));
                }
            }
            assert(index_set(out@) =~= flood_region(cells, w as int, h as int, hidden_only, t as int));
        }
        out
    }

    /// Plays a move on `target_index`. A hidden mine there loses the game and
    /// changes nothing. Otherwise the move uncovers the hidden cells that a
    /// flood from that cell reaches through hidden cells, and returns their
    /// indices: none when the cell is already uncovered or flagged.
    pub fn check_move(&mut self, target_index: usize) -> (r: Result<MoveOutcome, GameError>)
        ensures
            final(self).options() == old(self).options(),
            target_index >= old(self).cells().len() ==> {
                &&& r == Err::<MoveOutcome, GameError>(GameError::IndexOutOfRange)
                &&& final(self).cells() == old(self).cells()
            },
            target_index < old(self).cells().len() && old(self).cells()[target_index as int].state
                == CellState::Open && old(self).cells()[target_index as int].bomb ==> {
                &&& r == Ok::<MoveOutcome, GameError>(MoveOutcome::Loss)
                &&& final(self).cells() == old(self).cells()
            },
            target_index < old(self).cells().len() && !(old(self).cells()[target_index as int].state
                == CellState::Open && old(self).cells()[target_index as int].bomb) ==> {
                &&& r matches Ok(MoveOutcome::Revealed(v))
                &&& index_set(v@) == revealed_by(
                    old(self).cells(),
                    old(self).options().width as int,
                    old(self).options().height as int,
                    target_index as int,
                )
                &&& increasing(v@)
                &&& final(self).cells() == after_reveal(
                    old(self).cells(),
                    old(self).options().width as int,
                    old(self).options().height as int,
                    target_index as int,
                )
            },
    {
        proof {
            use_type_invariant(&*self);
        }
        let n = self.map.len();
        if target_index >= n {
            return Err(GameError::IndexOutOfRange);
        }
        let ghost before = self.map@;
        let ghost w = self.opts.width as int;
        let ghost h = self.opts.height as int;
        if self.map[target_index].state != CellState::Open {
            proof {
                lemma_reveal_elsewhere_uncovers_nothing(before, w, h, target_index as int);
                assert(index_set(Seq::<usize>::empty()) =~= Set::<int>::empty());
            }
            return Ok(MoveOutcome::Revealed(Vec::new()));
        }
        if self.map[target_index].bomb {
            return Ok(MoveOutcome::Loss);
        }
        let region = self.flood(target_index, true);
        let ghost region_set = flood_region(before, w, h, true, target_index as int);
        let mut marks: Vec<bool> = Vec::new();
        for x in 0..n
            invariant
                marks@.len() == x,
                forall|y: int| 0 <= y < x ==> !marks@[y],
        {
            marks.push(false);
        }
        for q in 0..region.len()
            invariant
                n == before.len(),
                marks@.len() == n,
                index_set(region@) == region_set,
                forall|y: int| region_set.contains(y) ==> 0 <= y < n,
                forall|y: int|
                    0 <= y < n ==> (#[trigger] marks@[y] <==> region@.take(q as int).contains(
                        y as usize,
                    )),
        {
            let j = region[q];
            proof {
                assert(index_set(region@).contains(j as int));
                assert(region@.take(q + 1) =~= region@.take(q as int).push(j));
            }
            marks.set(j, true);
        }
        proof {
            assert(region@.take(region@.len() as int) =~= region@);
        }
        let mut cells: Vec<Cell> = Vec::new();
        for x in 0..n
            invariant
                n == before.len(),
                before == self.map@,
                marks@.len() == n,
                index_set(region@) == region_set,
                region_set == revealed_by(before, w, h, target_index as int),
                forall|y: int| 0 <= y < n ==> (#[trigger] marks@[y] <==> region@.contains(y as usize)),
                cells@.len() == x,
                forall|y: int|
                    0 <= y < x ==> #[trigger] cells@[y] == after_reveal(
                        before,
                        w,
                        h,
                        target_index as int,
                    )[y],
        {
            let c = self.map[x];
            proof {
                assert(index_set(region@).contains(x as int) <==> region@.contains(x));
            }
            if marks[x] {
                cells.push(Cell { state: CellState::Closed, ..c });
            } else {
                cells.push(c);
            }
        }
        proof {
            assert(cells@ =~= after_reveal(before, w, h, target_index as int));
        }
        self.map = cells;
        Ok(MoveOutcome::Revealed(region))
    }

    /// A board from settings and cells given row by row, as they are.
    /// Refused when the settings are invalid or the number of cells is not
    /// `width * height`.
    pub fn from_cells(opts: GameOpts, map: Vec<Cell>) -> (r: Result<Game, GameError>)
        ensures
            r is Ok <==> valid_opts(opts) && map@.len() == cell_total(opts),
            r matches Err(e) ==> e == GameError::InvalidConfig,
            r matches Ok(g) ==> g.options() == stored_opts(opts) && g.cells() == map@,
    {
        let m = match resolve_mines_count(&opts) {
            Ok(m) => m,
            Err(e) => {
                return Err(e);
            },
        };
        if map.len() != opts.width * opts.height {
            return Err(GameError::InvalidConfig);
        }
        Ok(Game { opts: GameOpts { mines_count: m, ..opts }, map })
    }

    /// The cell at `index`.
    pub fn get_cell(&self, index: usize) -> (r: Result<Cell, GameError>)
        ensures
            index < self.cells().len() ==> r == Ok::<Cell, GameError>(self.cells()[index as int]),
            index >= self.cells().len() ==> r == Err::<Cell, GameError>(GameError::IndexOutOfRange),
    {
        if index < self.map.len() {
            Ok(self.map[index])
        } else {
            Err(GameError::IndexOutOfRange)
        }
    }

    /// The number of cells.
    pub fn cell_count(&self) -> (r: usize)
        ensures
            r == self.cells().len(),
            r == cell_total(self.options()),
    {
        proof {
            use_type_invariant(self);
        }
        self.map.len()
    }

    /// The width and the height of the grid.
    pub fn dimensions(&self) -> (r: (usize, usize))
        ensures
            r == (self.options().width, self.options().height),
    {
        (self.opts.width, self.opts.height)
    }

    /// The number of mines that the settings ask for.
    pub fn mine_count(&self) -> (r: usize)
        ensures
            r == self.options().mines_count,
            r == resolved_mines(self.options()),
    {
        proof {
            use_type_invariant(self);
        }
        self.opts.mines_count
    }

    /// The settings of this board, with `mines_count` resolved.
    pub fn opts(&self) -> (r: &GameOpts)
        ensures
            *r == self.options(),
            well_formed(*r, self.cells()),
    {
        proof {
            use_type_invariant(self);
        }
        &self.opts
    }
}

} // verus!
