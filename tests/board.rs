use minesweeper::{Cell, CellState, Game, GameError, GameOpts, MoveOutcome};

/// A 3 by 3 board with mines at 0, 1 and 3 and the counts set by hand.
fn preset_3x3_3mines() -> Game {
    let opts = GameOpts { width: 3, height: 3, mines_count: 2, mines_percentage: None };
    let spec: [(bool, usize); 9] = [
        (true, 1),
        (true, 1),
        (false, 1),
        (true, 2),
        (false, 0),
        (false, 0),
        (false, 0),
        (false, 0),
        (false, 0),
    ];
    let map: Vec<Cell> = spec
        .iter()
        .map(|&(bomb, nearby_mines)| Cell { bomb, nearby_mines, state: CellState::Open })
        .collect();
    Game::from_cells(opts, map).unwrap()
}

fn empty_3x3() -> Game {
    let opts = GameOpts { width: 3, height: 3, mines_count: 2, mines_percentage: None };
    let mut map = Vec::new();
    for _ in 0..9 {
        map.push(Cell { bomb: false, nearby_mines: 0, state: CellState::Open })
    }
    Game::from_cells(opts, map).unwrap()
}

fn all_cells(game: &Game) -> Vec<Cell> {
    (0..game.cell_count()).map(|i| game.get_cell(i).unwrap()).collect()
}

/// Counts the mines around each cell by walking its neighbours directly.
fn recount(game: &Game, i: usize) -> usize {
    let (w, h) = game.dimensions();
    let (x, y) = ((i % w) as i64, (i / w) as i64);
    let mut count = 0;
    for dy in -1i64..=1 {
        for dx in -1i64..=1 {
            let (nx, ny) = (x + dx, y + dy);
            if (dx, dy) != (0, 0) && nx >= 0 && ny >= 0 && nx < w as i64 && ny < h as i64 {
                if game.get_cell((ny as usize) * w + nx as usize).unwrap().mine() {
                    count += 1;
                }
            }
        }
    }
    count
}

#[test]
fn map_generation() {
    let game_opts = GameOpts { width: 8, height: 8, mines_count: 16, mines_percentage: Some(25) };
    let game = Game::new(game_opts).unwrap();

    assert_eq!(game.cell_count(), 64);
    assert_eq!(game.opts().mines_count(), 16);
}

#[test]
fn cell_recursion_check_0_mines() {
    let game = empty_3x3();
    let expected_result = vec![0, 1, 2, 3, 4, 5, 6, 7, 8];

    let mut result = game.check_empty_cells(8).unwrap();
    result.sort();
    assert_eq!(result, expected_result);
}

#[test]
fn cell_recursion_check_3_mines() {
    let game = preset_3x3_3mines();
    let expected_result = vec![2, 4, 5, 6, 7, 8];

    let mut result = game.check_empty_cells(8).unwrap();
    result.sort();
    assert_eq!(result, expected_result);
}

#[test]
fn move_check_on_mine() {
    let mut game = preset_3x3_3mines();

    assert_eq!(game.check_move(0), Ok(MoveOutcome::Loss));
    assert_eq!(game.check_move(1), Ok(MoveOutcome::Loss));
    assert_eq!(game.check_move(3), Ok(MoveOutcome::Loss));
}

#[test]
fn move_check_not_on_mine() {
    let mut game = preset_3x3_3mines();

    assert_eq!(game.check_move(2), Ok(MoveOutcome::Revealed(vec![2usize])));
    assert_eq!(
        game.get_cell(2),
        Ok(Cell { bomb: false, nearby_mines: 1, state: CellState::Closed })
    );
}

#[test]
fn generated_board_has_the_resolved_mine_count() {
    for _ in 0..20 {
        let game = Game::new(GameOpts::preset_16x16_40_mines()).unwrap();
        let mines = all_cells(&game).iter().filter(|c| c.mine()).count();
        assert_eq!(game.cell_count(), 256);
        assert_eq!(mines, 40);
        assert_eq!(game.mine_count(), 40);
    }
    let game = Game::new(GameOpts::new(10, 10, 3, Some(33))).unwrap();
    let mines = all_cells(&game).iter().filter(|c| c.mine()).count();
    assert_eq!(mines, 33);
    assert_eq!(game.mine_count(), 33);
}

#[test]
fn generated_counts_match_the_neighbourhood() {
    for _ in 0..10 {
        let game = Game::new(GameOpts::preset_30x16_40_mines()).unwrap();
        assert_eq!(game.dimensions(), (30, 16));
        for i in 0..game.cell_count() {
            let cell = game.get_cell(i).unwrap();
            assert_eq!(cell.nearby_mines(), recount(&game, i));
            assert_eq!(*cell.state(), CellState::Open);
        }
    }
}

#[test]
fn draws_place_mines_on_free_cells_by_rank() {
    let opts = GameOpts::new(3, 3, 3, None);
    let game = Game::from_draws(opts, &vec![0, 0, 0]).unwrap();
    let mines: Vec<bool> = all_cells(&game).iter().map(|c| c.mine()).collect();
    assert_eq!(mines, vec![true, true, true, false, false, false, false, false, false]);
    let counts: Vec<usize> = all_cells(&game)[3..].iter().map(|c| c.nearby_mines()).collect();
    assert_eq!(counts, vec![2, 3, 2, 0, 0, 0]);

    let game = Game::from_draws(opts, &vec![8, 8, 100]).unwrap();
    let mined: Vec<usize> = (0..9).filter(|&i| game.get_cell(i).unwrap().mine()).collect();
    assert_eq!(mined, vec![0, 3, 8]);
    assert_eq!(game.get_cell(4).unwrap().nearby_mines(), 3);
    assert_eq!(game.get_cell(1).unwrap().nearby_mines(), 2);
}

#[test]
fn random_placement_reaches_every_cell() {
    let mut seen = [false, false];
    for _ in 0..64 {
        let game = Game::new(GameOpts::new(2, 1, 1, None)).unwrap();
        for i in 0..2 {
            if game.get_cell(i).unwrap().mine() {
                seen[i] = true;
            }
        }
    }
    assert_eq!(seen, [true, true]);
}

#[test]
fn invalid_settings_are_refused() {
    let cases = [
        GameOpts::new(0, 8, 1, None),
        GameOpts::new(8, 0, 1, None),
        GameOpts::new(3, 3, 9, None),
        GameOpts::new(3, 3, 12, None),
        GameOpts::new(4, 5, 0, Some(100)),
        GameOpts::new(4, 5, 0, Some(250)),
        GameOpts::new(usize::MAX, 2, 1, None),
    ];
    for opts in cases {
        assert!(matches!(Game::new(opts), Err(GameError::InvalidConfig)));
    }
    assert_eq!(minesweeper::resolve_mines_count(&GameOpts::new(4, 5, 0, Some(99))), Ok(19));
    assert_eq!(minesweeper::resolve_mines_count(&GameOpts::new(4, 5, 7, None)), Ok(7));
    assert_eq!(
        minesweeper::resolve_mines_count(&GameOpts::new(4, 5, 20, None)),
        Err(GameError::InvalidConfig)
    );
    let too_few = vec![Cell::new(); 8];
    assert!(matches!(
        Game::from_cells(GameOpts::new(3, 3, 1, None), too_few),
        Err(GameError::InvalidConfig)
    ));
}

#[test]
fn percentage_overrides_the_count() {
    let game = Game::new(GameOpts::new(10, 3, 29, Some(10))).unwrap();
    assert_eq!(game.mine_count(), 3);
    assert_eq!(game.opts().mines_count, 3);
    assert_eq!(game.opts().mines_percentage, Some(10));
    let game = Game::new(GameOpts::new(3, 3, 4, Some(0))).unwrap();
    assert_eq!(game.mine_count(), 0);
}

#[test]
fn second_reveal_uncovers_nothing() {
    let mut game = preset_3x3_3mines();
    assert_eq!(game.check_move(8), Ok(MoveOutcome::Revealed(vec![2, 4, 5, 6, 7, 8])));
    assert_eq!(game.check_move(8), Ok(MoveOutcome::Revealed(vec![])));
    assert_eq!(game.check_move(2), Ok(MoveOutcome::Revealed(vec![])));
}

#[test]
fn reveal_on_empty_board_uncovers_everything() {
    let mut game = empty_3x3();
    assert_eq!(game.check_move(0), Ok(MoveOutcome::Revealed((0..9).collect())));
    for cell in all_cells(&game) {
        assert_eq!(cell.state, CellState::Closed);
    }
}

#[test]
fn flood_stops_at_numbered_cells() {
    let mut game = preset_3x3_3mines();
    assert_eq!(game.check_move(8), Ok(MoveOutcome::Revealed(vec![2, 4, 5, 6, 7, 8])));
    for i in [0, 1, 3] {
        assert_eq!(game.get_cell(i).unwrap().state, CellState::Open);
    }
}

#[test]
fn loss_changes_no_cell() {
    let mut game = preset_3x3_3mines();
    let before = all_cells(&game);
    assert_eq!(game.check_move(3), Ok(MoveOutcome::Loss));
    assert_eq!(all_cells(&game), before);
}

#[test]
fn numbered_cell_is_uncovered_alone() {
    let mut game = preset_3x3_3mines();
    let before = all_cells(&game);
    assert_eq!(game.check_move(2), Ok(MoveOutcome::Revealed(vec![2])));
    let after = all_cells(&game);
    for i in 0..9 {
        if i != 2 {
            assert_eq!(after[i], before[i]);
        }
    }
}

#[test]
fn flagged_cells_are_left_alone() {
    let opts = GameOpts::new(3, 1, 0, None);
    let mut map = vec![Cell::new(); 3];
    map[1].state = CellState::Marked;
    let mut game = Game::from_cells(opts, map).unwrap();
    assert_eq!(game.check_move(1), Ok(MoveOutcome::Revealed(vec![])));
    assert_eq!(game.check_move(0), Ok(MoveOutcome::Revealed(vec![0])));
    assert_eq!(game.get_cell(1).unwrap().state, CellState::Marked);
    assert_eq!(game.get_cell(2).unwrap().state, CellState::Open);
}

#[test]
fn flagged_mine_is_no_loss() {
    let opts = GameOpts::new(2, 1, 1, None);
    let mut map = vec![Cell::new(); 2];
    map[0].set_bomb();
    map[0].state = CellState::Marked;
    let mut game = Game::from_cells(opts, map).unwrap();
    assert_eq!(game.check_move(0), Ok(MoveOutcome::Revealed(vec![])));
}

#[test]
fn out_of_range_index_is_refused() {
    let mut game = preset_3x3_3mines();
    let before = all_cells(&game);
    assert_eq!(game.check_move(9), Err(GameError::IndexOutOfRange));
    assert_eq!(game.get_cell(9), Err(GameError::IndexOutOfRange));
    assert_eq!(game.check_empty_cells(9), None);
    assert_eq!(all_cells(&game), before);
}

#[test]
fn thin_boards_flood_along_their_length() {
    let mut row = Game::from_cells(GameOpts::new(6, 1, 0, None), vec![Cell::new(); 6]).unwrap();
    assert_eq!(row.check_move(5), Ok(MoveOutcome::Revealed((0..6).collect())));
    let mut column = Game::from_cells(GameOpts::new(1, 5, 0, None), vec![Cell::new(); 5]).unwrap();
    assert_eq!(column.check_move(0), Ok(MoveOutcome::Revealed((0..5).collect())));
    let single = Game::new(GameOpts::new(1, 1, 0, None)).unwrap();
    assert_eq!(single.get_cell(0).unwrap().nearby_mines(), 0);
}

#[test]
fn edge_and_corner_counts_on_a_full_ring() {
    // 3 by 3 boards with a single cell free of mines: in a corner, in the
    // centre, on an edge.
    let draws = vec![0; 8];
    let game = Game::from_draws(GameOpts::new(3, 3, 8, None), &draws).unwrap();
    assert_eq!(game.get_cell(8).unwrap().mine(), false);
    assert_eq!(game.get_cell(8).unwrap().nearby_mines(), 3);
    let game = Game::from_draws(GameOpts::new(3, 3, 8, None), &vec![1; 8]).unwrap();
    let free: Vec<usize> = (0..9).filter(|&i| !game.get_cell(i).unwrap().mine()).collect();
    assert_eq!(free.len(), 1);
    let centre_free = Game::from_draws(GameOpts::new(3, 3, 8, None), &vec![0, 0, 0, 0, 1, 1, 1, 1]).unwrap();
    assert_eq!(centre_free.get_cell(4).unwrap().mine(), false);
    assert_eq!(centre_free.get_cell(4).unwrap().nearby_mines(), 8);
    let edge = Game::from_draws(GameOpts::new(3, 3, 8, None), &vec![0, 1, 1, 1, 1, 1, 1, 1]).unwrap();
    assert_eq!(edge.get_cell(1).unwrap().mine(), false);
    assert_eq!(edge.get_cell(1).unwrap().nearby_mines(), 5);
}

#[test]
fn presets_and_defaults() {
    let p = GameOpts::preset_8x8_10_mines();
    assert_eq!((p.width(), p.height(), p.mines_count(), p.mines_percentage), (8, 8, 10, None));
    let p = GameOpts::preset_16x16_40_mines();
    assert_eq!((p.width, p.height, p.mines_count), (16, 16, 40));
    let p = GameOpts::preset_30x16_40_mines();
    assert_eq!((p.width, p.height, p.mines_count), (30, 16, 99));
    let d = GameOpts::default();
    assert_eq!((d.width, d.height, d.mines_count, d.mines_percentage), (8, 8, 10, None));
    let c = Cell::new();
    assert_eq!((c.mine(), c.nearby_mines(), *c.state()), (false, 0, CellState::Open));
}

#[test]
fn empty_cell_region_needs_an_empty_target() {
    let game = preset_3x3_3mines();
    assert_eq!(game.check_empty_cells(2), None);
    assert_eq!(game.check_empty_cells(0), None);
    assert_eq!(game.check_empty_cells(4), Some(vec![2, 4, 5, 6, 7, 8]));
}

#[test]
fn empty_cell_region_ignores_visibility() {
    let mut game = preset_3x3_3mines();
    assert_eq!(game.check_move(8), Ok(MoveOutcome::Revealed(vec![2, 4, 5, 6, 7, 8])));
    assert_eq!(game.check_empty_cells(8), Some(vec![2, 4, 5, 6, 7, 8]));

    let opts = GameOpts::new(3, 1, 0, None);
    let mut map = vec![Cell::new(); 3];
    map[1].state = CellState::Marked;
    let game = Game::from_cells(opts, map).unwrap();
    assert_eq!(game.check_empty_cells(0), Some(vec![0, 1, 2]));
    assert_eq!(game.check_empty_cells(1), Some(vec![0, 1, 2]));
}
