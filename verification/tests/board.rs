use game_of_life::game::{CELL_COUNT_ROW, CHANCE_DENOMINATOR, CHANCE_NUMERATOR};
use game_of_life::random::{draw_many, seed_cells};
use game_of_life::{GameOfLife, GridError};

#[test]
fn get_reads_the_generation_on_display() {
    let game = GameOfLife::from_cells(2, vec![true, false, false, true]).unwrap();
    assert_eq!(game.get(0), Ok(true));
    assert_eq!(game.get(1), Ok(false));
    assert_eq!(game.get(2), Ok(false));
    assert_eq!(game.get(3), Ok(true));
}

#[test]
fn get_beyond_the_board_is_out_of_range() {
    let game = GameOfLife::from_cells(2, vec![true, false, false, true]).unwrap();
    assert_eq!(game.get(4), Err(GridError::OutOfRange));
    assert_eq!(game.get(usize::MAX), Err(GridError::OutOfRange));
}

#[test]
fn set_next_shows_only_after_commit() {
    let mut game = GameOfLife::from_cells(2, vec![false; 4]).unwrap();
    assert_eq!(game.set_next(2, true), Ok(()));
    assert_eq!(game.cells(), &vec![false; 4]);
    game.commit();
    assert_eq!(game.cells(), &vec![false, false, true, false]);
    assert_eq!(game.set_next(2, false), Ok(()));
    game.commit();
    assert_eq!(game.cells(), &vec![false; 4]);
}

#[test]
fn set_next_beyond_the_board_is_out_of_range() {
    let mut game = GameOfLife::from_cells(2, vec![false; 4]).unwrap();
    assert_eq!(game.set_next(4, true), Err(GridError::OutOfRange));
    game.commit();
    assert_eq!(game.cells(), &vec![false; 4]);
}

#[test]
fn from_cells_keeps_side_and_cells() {
    let cells = vec![true, false, true, false, true, false, true, false, true];
    let game = GameOfLife::from_cells(3, cells.clone()).unwrap();
    assert_eq!(game.dimension(), 3);
    assert_eq!(game.cells(), &cells);
}

#[test]
fn from_cells_refuses_a_side_of_zero() {
    let made = GameOfLife::from_cells(0, Vec::new());
    assert_eq!(made.unwrap_err(), GridError::InvalidDimension);
}

#[test]
fn from_cells_refuses_cells_that_fill_no_square() {
    assert_eq!(
        GameOfLife::from_cells(3, vec![false; 8]).unwrap_err(),
        GridError::InvalidDimension
    );
    assert_eq!(
        GameOfLife::from_cells(3, vec![false; 10]).unwrap_err(),
        GridError::InvalidDimension
    );
    assert_eq!(
        GameOfLife::from_cells(usize::MAX, vec![false; 1]).unwrap_err(),
        GridError::InvalidDimension
    );
}

#[test]
fn random_refuses_a_side_of_zero() {
    assert_eq!(
        GameOfLife::random(0, 1, 5).unwrap_err(),
        GridError::InvalidDimension
    );
}

#[test]
fn random_refuses_a_board_too_large_to_count() {
    assert_eq!(
        GameOfLife::random(usize::MAX, 1, 5).unwrap_err(),
        GridError::InvalidDimension
    );
}

#[test]
fn random_with_no_chance_is_all_dead() {
    let game = GameOfLife::random(6, 0, 5).unwrap();
    assert_eq!(game.dimension(), 6);
    assert_eq!(game.cells(), &vec![false; 36]);
}

#[test]
fn random_with_every_chance_is_all_alive() {
    let game = GameOfLife::random(6, 5, 5).unwrap();
    assert_eq!(game.cells(), &vec![true; 36]);
    let sure = GameOfLife::random(4, 1, 1).unwrap();
    assert_eq!(sure.cells(), &vec![true; 16]);
}

#[test]
fn random_fills_the_whole_board() {
    let mut game = GameOfLife::random(7, 1, 2).unwrap();
    assert_eq!(game.dimension(), 7);
    assert_eq!(game.cells().len(), 49);
    let shown = game.cells().clone();
    game.commit();
    assert_eq!(game.cells(), &shown);
}

#[test]
fn new_makes_the_default_board() {
    assert_eq!(CELL_COUNT_ROW, 50);
    assert_eq!((CHANCE_NUMERATOR, CHANCE_DENOMINATOR), (1, 5));
    let mut game = GameOfLife::new();
    assert_eq!(game.dimension(), 50);
    assert_eq!(game.cells().len(), 2500);
    assert_eq!(game.get(2499).is_ok(), true);
    assert_eq!(game.get(2500), Err(GridError::OutOfRange));
    let shown = game.cells().clone();
    game.commit();
    assert_eq!(game.cells(), &shown);
}

#[test]
fn draws_stay_below_the_bound() {
    let draws = draw_many(200, 5);
    assert_eq!(draws.len(), 200);
    assert!(draws.iter().all(|&draw| draw < 5));
    assert_eq!(draw_many(10, 1), vec![0; 10]);
    assert_eq!(draw_many(0, 3), Vec::<u32>::new());
}

#[test]
fn a_cell_is_seeded_alive_below_the_numerator() {
    assert_eq!(
        seed_cells(&[0, 1, 2, 3, 4, 0], 1),
        vec![true, false, false, false, false, true]
    );
    assert_eq!(
        seed_cells(&[0, 1, 2, 3, 4], 3),
        vec![true, true, true, false, false]
    );
    assert_eq!(seed_cells(&[0, 7], 0), vec![false, false]);
    assert_eq!(seed_cells(&[], 1), Vec::<bool>::new());
}

#[test]
fn live_cells_are_listed_by_column_and_row() {
    let cells = vec![false, true, false, false, false, true, true, false, false];
    let game = GameOfLife::from_cells(3, cells).unwrap();
    assert_eq!(game.live_cells(), vec![(1, 0), (2, 1), (0, 2)]);
}

#[test]
fn live_cells_of_a_dead_board_are_none() {
    let game = GameOfLife::from_cells(3, vec![false; 9]).unwrap();
    assert_eq!(game.live_cells(), Vec::<(usize, usize)>::new());
}

#[test]
fn live_cells_follow_the_generations() {
    let cells = vec![false, true, false, false, true, false, false, true, false];
    let mut game = GameOfLife::from_cells(3, cells).unwrap();
    game.update();
    assert_eq!(game.live_cells(), vec![(0, 1), (1, 1), (2, 1)]);
}

#[test]
fn draws_are_not_all_the_same() {
    let draws = draw_many(400, 1000);
    assert!(draws.iter().any(|&draw| draw != 0));
    assert!(draws.iter().any(|&draw| draw != draws[0]));
}

#[test]
fn random_board_at_even_odds_holds_both_kinds() {
    let game = GameOfLife::random(20, 1, 2).unwrap();
    assert!(game.cells().iter().any(|&alive| alive));
    assert!(game.cells().iter().any(|&alive| !alive));
}
