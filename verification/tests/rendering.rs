use game_of_life::board::Board;

#[test]
fn render_draws_rules_bars_and_glyphs() {
    let mut board = Board::dead(2, 2);
    board.set_cell(0, 0, true);
    board.set_cell(1, 1, true);
    assert_eq!(board.render(), "- - - \n|x| |\n- - - \n| |x|\n- - - \n");
}

#[test]
fn render_of_a_dead_board() {
    let board = Board::dead(1, 3);
    assert_eq!(board.render(), "- - - - \n| | | |\n- - - - \n");
}

#[test]
fn render_of_a_board_without_rows() {
    let board = Board::dead(0, 4);
    assert_eq!(board.render(), "- \n");
}

#[test]
fn render_of_a_board_without_columns() {
    let board = Board::dead(2, 0);
    assert_eq!(board.render(), "- \n|\n- \n|\n- \n");
}

#[test]
fn render_does_not_change_the_board() {
    let mut board = Board::dead(3, 3);
    board.set_cell(1, 1, true);
    let first = board.render();
    let second = board.render();
    assert_eq!(first, second);
    assert_eq!(board.count_alive_cells(), 1);
    assert_eq!(board.generation(), 1);
}

#[test]
fn render_follows_the_generations() {
    let mut board = Board::dead(3, 3);
    board.set_cell(1, 0, true);
    board.set_cell(1, 1, true);
    board.set_cell(1, 2, true);
    assert_eq!(board.render(), "- - - - \n| | | |\n- - - - \n|x|x|x|\n- - - - \n| | | |\n- - - - \n");
    board.next_generation();
    assert_eq!(board.render(), "- - - - \n| |x| |\n- - - - \n| |x| |\n- - - - \n| |x| |\n- - - - \n");
}
