use game_of_life::board::{Board, BoardError};

#[test]
fn new_board_is_at_generation_one_with_the_given_shape() {
    let board = Board::new(10, 10, 30);
    assert_eq!(board.generation(), 1);
    assert_eq!(board.count_rows(), 10);
    assert_eq!(board.count_columns(), 10);
}

#[test]
fn new_board_has_at_most_the_target_alive() {
    for _ in 0..50 {
        let board = Board::new(10, 10, 30);
        let alive = board.count_alive_cells();
        assert!(alive <= 30);
        assert!(alive >= 1);
    }
}

#[test]
fn target_is_rounded_down() {
    for _ in 0..20 {
        assert_eq!(Board::new(1, 1, 99).count_alive_cells(), 0);
        assert_eq!(Board::new(1, 1, 100).count_alive_cells(), 1);
        assert_eq!(Board::new(3, 1, 33).count_alive_cells(), 0);
        assert_eq!(Board::new(3, 1, 34).count_alive_cells(), 1);
        assert_eq!(Board::new(1, 199, 1).count_alive_cells(), 1);
        let board = Board::new(7, 3, 10);
        assert!(board.count_alive_cells() >= 1 && board.count_alive_cells() <= 2);
    }
}

#[test]
fn zero_percent_seeds_nothing() {
    let board = Board::new(8, 8, 0);
    assert_eq!(board.count_alive_cells(), 0);
    assert_eq!(board.count_rows(), 8);
    assert_eq!(board.count_columns(), 8);
}

#[test]
fn hundred_percent_draws_with_repetition() {
    let board = Board::new(20, 20, 100);
    let alive = board.count_alive_cells();
    assert!(alive <= 400);
    assert!(alive > 1);
}

#[test]
fn draws_reach_every_row_and_column() {
    let mut rows = [false; 4];
    let mut columns = [false; 4];
    for _ in 0..200 {
        let board = Board::new(4, 4, 100);
        for row in 0..4 {
            for column in 0..4 {
                if board.is_alive(row, column) {
                    rows[row] = true;
                    columns[column] = true;
                }
            }
        }
    }
    assert_eq!(rows, [true; 4]);
    assert_eq!(columns, [true; 4]);
}

#[test]
fn new_board_without_cells() {
    let board = Board::new(0, 5, 50);
    assert_eq!(board.count_rows(), 0);
    assert_eq!(board.count_columns(), 0);
    assert_eq!(board.count_alive_cells(), 0);
    let board = Board::new(5, 0, 50);
    assert_eq!(board.count_rows(), 5);
    assert_eq!(board.count_columns(), 0);
    assert_eq!(board.count_alive_cells(), 0);
}

#[test]
fn randomize_cells_keeps_what_is_alive() {
    let mut board = Board::dead(6, 6);
    board.set_cell(0, 0, true);
    board.set_cell(5, 5, true);
    board.randomize_cells(25);
    assert!(board.is_alive(0, 0));
    assert!(board.is_alive(5, 5));
    let alive = board.count_alive_cells();
    assert!(alive >= 2 && alive <= 2 + 9);
    assert_eq!(board.generation(), 1);
    assert_eq!(board.count_rows(), 6);
    assert_eq!(board.count_columns(), 6);
}

#[test]
fn randomize_cells_with_no_draw_changes_nothing() {
    let mut board = Board::dead(3, 3);
    board.set_cell(1, 1, true);
    board.randomize_cells(11);
    assert_eq!(board.count_alive_cells(), 1);
    assert!(board.is_alive(1, 1));
}

#[test]
fn try_new_accepts_what_new_accepts() {
    let board = Board::try_new(10, 10, 30).unwrap();
    assert_eq!(board.generation(), 1);
    assert_eq!(board.count_rows(), 10);
    assert_eq!(board.count_columns(), 10);
    assert!(board.count_alive_cells() <= 30);
    assert!(Board::try_new(2, 2, 100).is_ok());
    assert!(Board::try_new(2, 2, 0).is_ok());
}

#[test]
fn try_new_rejects_a_percentage_above_hundred() {
    assert_eq!(Board::try_new(10, 10, 101).unwrap_err(), BoardError::InvalidArgument);
    assert_eq!(Board::try_new(0, 0, usize::MAX).unwrap_err(), BoardError::InvalidArgument);
    assert_eq!(
        Board::try_new(usize::MAX, usize::MAX, 101).unwrap_err(),
        BoardError::InvalidArgument
    );
}

#[test]
fn try_new_rejects_more_cells_than_can_be_counted() {
    assert_eq!(Board::try_new(usize::MAX, 2, 50).unwrap_err(), BoardError::TooLarge);
    assert_eq!(Board::try_new(2, usize::MAX, 0).unwrap_err(), BoardError::TooLarge);
}
