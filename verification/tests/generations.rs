use game_of_life::GameOfLife;

fn board(side: usize, live: &[usize]) -> Vec<bool> {
    let mut cells = vec![false; side * side];
    for &index in live {
        cells[index] = true;
    }
    cells
}

#[test]
fn vertical_blinker_turns_horizontal() {
    let cells = vec![false, true, false, false, true, false, false, true, false];
    let mut game = GameOfLife::from_cells(3, cells).unwrap();
    game.update();
    assert_eq!(
        game.cells(),
        &vec![false, false, false, true, true, true, false, false, false]
    );
}

#[test]
fn blinker_has_period_two() {
    let lying = board(5, &[11, 12, 13]);
    let standing = board(5, &[7, 12, 17]);
    let mut game = GameOfLife::from_cells(5, lying.clone()).unwrap();
    game.update();
    assert_eq!(game.cells(), &standing);
    game.update();
    assert_eq!(game.cells(), &lying);
}

#[test]
fn block_is_a_still_life() {
    let block = board(4, &[5, 6, 9, 10]);
    let mut game = GameOfLife::from_cells(4, block.clone()).unwrap();
    game.update();
    assert_eq!(game.cells(), &block);
    game.update();
    assert_eq!(game.cells(), &block);
}

#[test]
fn block_in_a_corner_is_a_still_life() {
    let block = board(3, &[0, 1, 3, 4]);
    let mut game = GameOfLife::from_cells(3, block.clone()).unwrap();
    game.update();
    assert_eq!(game.cells(), &block);
}

#[test]
fn lonely_cell_dies() {
    let mut game = GameOfLife::from_cells(3, board(3, &[4])).unwrap();
    assert_eq!(game.count_neighbors(4), 0);
    game.update();
    assert_eq!(game.cells(), &vec![false; 9]);
}

#[test]
fn dead_board_stays_dead() {
    let mut game = GameOfLife::from_cells(4, vec![false; 16]).unwrap();
    for _ in 0..5 {
        game.update();
        assert_eq!(game.cells(), &vec![false; 16]);
    }
}

#[test]
fn birth_takes_exactly_three_in_the_interior() {
    // centre of a 3x3 board, dead, with 2, 3 and 4 live neighbours
    let mut two = GameOfLife::from_cells(3, board(3, &[0, 1])).unwrap();
    two.update();
    assert_eq!(two.get(4), Ok(false));
    let mut three = GameOfLife::from_cells(3, board(3, &[0, 1, 2])).unwrap();
    three.update();
    assert_eq!(three.get(4), Ok(true));
    let mut four = GameOfLife::from_cells(3, board(3, &[0, 1, 2, 3])).unwrap();
    four.update();
    assert_eq!(four.get(4), Ok(false));
}

#[test]
fn birth_takes_exactly_three_on_an_edge() {
    // cell 1 lies on the upper edge of a 3x3 board; its neighbours are 0, 2, 3, 4, 5
    let mut two = GameOfLife::from_cells(3, board(3, &[0, 2])).unwrap();
    two.update();
    assert_eq!(two.get(1), Ok(false));
    let mut three = GameOfLife::from_cells(3, board(3, &[0, 2, 4])).unwrap();
    three.update();
    assert_eq!(three.get(1), Ok(true));
    let mut four = GameOfLife::from_cells(3, board(3, &[0, 2, 3, 5])).unwrap();
    four.update();
    assert_eq!(four.get(1), Ok(false));
    let mut five = GameOfLife::from_cells(3, board(3, &[0, 2, 3, 4, 5])).unwrap();
    five.update();
    assert_eq!(five.get(1), Ok(false));
}

#[test]
fn crowded_cell_dies() {
    let mut game = GameOfLife::from_cells(3, vec![true; 9]).unwrap();
    game.update();
    assert_eq!(
        game.cells(),
        &vec![true, false, true, false, false, false, true, false, true]
    );
}

#[test]
fn no_wraparound_across_the_sides() {
    // three live cells in the last column do not reach the first column
    let mut game = GameOfLife::from_cells(4, board(4, &[3, 7, 11])).unwrap();
    assert_eq!(game.count_neighbors(4), 0);
    assert_eq!(game.count_neighbors(8), 0);
    game.update();
    assert_eq!(game.cells(), &board(4, &[6, 7]));
}

#[test]
fn update_does_not_read_the_generation_in_the_making() {
    let mut game = GameOfLife::from_cells(3, board(3, &[1, 4, 7])).unwrap();
    // stale writes that were never committed must not leak into the result
    for index in 0..9 {
        game.set_next(index, true).unwrap();
    }
    game.update();
    assert_eq!(game.cells(), &board(3, &[3, 4, 5]));
}

#[test]
fn update_leaves_both_generations_equal() {
    let mut game = GameOfLife::from_cells(3, board(3, &[1, 4, 7])).unwrap();
    game.update();
    let shown = game.cells().clone();
    game.commit();
    assert_eq!(game.cells(), &shown);
}

#[test]
fn single_cell_board_dies_out() {
    let mut game = GameOfLife::from_cells(1, vec![true]).unwrap();
    assert_eq!(game.count_neighbors(0), 0);
    game.update();
    assert_eq!(game.cells(), &vec![false]);
}

#[test]
fn full_board_of_side_two_is_stable() {
    let mut game = GameOfLife::from_cells(2, vec![true; 4]).unwrap();
    game.update();
    assert_eq!(game.cells(), &vec![true; 4]);
}
