use tetris::game::Tetris;
use tetris::grid::{
    blank_row, copy_cells, copy_row, has_size, row_is_full, BOARD_HEIGHT, BOARD_WIDTH,
};
use tetris::piece::{canonical_shapes, Tetromino};

fn empty_game() -> Tetris {
    Tetris::with_shape(vec![vec![1, 1], vec![1, 1]])
}

fn piece_at(shape: Vec<Vec<u8>>, x: usize, y: usize) -> Tetromino {
    Tetromino { shape, x, y }
}

#[test]
fn board_constants() {
    assert_eq!(BOARD_WIDTH, 10);
    assert_eq!(BOARD_HEIGHT, 20);
}

#[test]
fn with_shape_starts_on_an_empty_board() {
    let game = Tetris::with_shape(vec![vec![1, 1, 1, 1]]);
    assert_eq!(game.board, vec![vec![0u8; 10]; 20]);
    assert_eq!(game.score, 0);
    assert_eq!(game.tetromino, Tetromino { shape: vec![vec![1, 1, 1, 1]], x: 4, y: 0 });
}

#[test]
fn new_game_starts_with_a_canonical_piece() {
    let shapes = canonical_shapes();
    for _ in 0..200 {
        let game = Tetris::new();
        assert_eq!(game.board, vec![vec![0u8; 10]; 20]);
        assert_eq!(game.score, 0);
        assert_eq!((game.tetromino.x, game.tetromino.y), (4, 0));
        assert!(shapes.contains(&game.tetromino.shape));
        assert!(game.is_in_play());
    }
}

#[test]
fn new_game_draws_more_than_one_shape() {
    let first = Tetris::new().tetromino.shape;
    let mut other = false;
    for _ in 0..400 {
        if Tetris::new().tetromino.shape != first {
            other = true;
        }
    }
    assert!(other);
}

#[test]
fn can_move_on_an_empty_board() {
    let game = empty_game();
    let piece = piece_at(vec![vec![1, 1], vec![1, 1]], 4, 0);
    assert!(game.can_move(0, 0, &piece));
    assert!(game.can_move(0, 1, &piece));
    assert!(game.can_move(-1, 0, &piece));
    assert!(game.can_move(1, 0, &piece));
    assert!(game.can_move(4, 18, &piece));
    assert!(game.can_move(-4, 18, &piece));
}

#[test]
fn can_move_stops_at_the_walls() {
    let game = empty_game();
    let piece = piece_at(vec![vec![1, 1], vec![1, 1]], 0, 0);
    assert!(!game.can_move(-1, 0, &piece));
    assert!(!game.can_move(0, -1, &piece));
    assert!(game.can_move(8, 0, &piece));
    assert!(!game.can_move(9, 0, &piece));
    assert!(game.can_move(0, 18, &piece));
    assert!(!game.can_move(0, 19, &piece));
}

#[test]
fn can_move_takes_any_offset() {
    let game = empty_game();
    let piece = piece_at(vec![vec![1]], usize::MAX, usize::MAX);
    assert!(!game.can_move(0, 0, &piece));
    assert!(!game.can_move(isize::MAX, isize::MAX, &piece));
    assert!(!game.can_move(isize::MIN, isize::MIN, &piece));
    let near = piece_at(vec![vec![1]], 0, 0);
    assert!(!game.can_move(isize::MIN, 0, &near));
    assert!(!game.can_move(0, isize::MAX, &near));
}

#[test]
fn can_move_looks_at_filled_cells_only() {
    let game = empty_game();
    let piece = piece_at(vec![vec![0, 1], vec![0, 1]], 0, 0);
    assert!(game.can_move(-1, 0, &piece));
    assert!(!game.can_move(-2, 0, &piece));
    let hollow = piece_at(vec![vec![0, 0], vec![0, 0]], 0, 0);
    assert!(game.can_move(-5, 40, &hollow));
}

#[test]
fn can_move_stops_at_occupied_cells() {
    let mut game = empty_game();
    game.board[5][4] = 3;
    let piece = piece_at(vec![vec![1, 1], vec![1, 1]], 4, 2);
    assert!(game.can_move(0, 0, &piece));
    assert!(game.can_move(0, 1, &piece));
    assert!(!game.can_move(0, 2, &piece));
    assert!(!game.can_move(-1, 2, &piece));
    assert!(game.can_move(1, 2, &piece));
    assert!(game.can_move(-2, 2, &piece));
}

#[test]
fn can_move_accepts_a_ragged_piece() {
    let game = empty_game();
    let piece = piece_at(vec![vec![1], vec![1, 1, 1], vec![]], 7, 0);
    assert!(game.can_move(0, 0, &piece));
    assert!(!game.can_move(1, 0, &piece));
}

#[test]
fn turned_i_piece_cannot_pass_the_left_wall() {
    let game = empty_game();
    let mut turned = Tetromino::new(vec![vec![1, 1, 1, 1]]).rotate();
    assert_eq!(turned.shape, vec![vec![1], vec![1], vec![1], vec![1]]);
    assert_eq!((turned.x, turned.y), (4, 0));
    while game.can_move(-1, 0, &turned) {
        turned.x -= 1;
    }
    assert_eq!(turned.x, 0);
    assert!(game.can_move(0, 0, &turned));
    assert!(!game.can_move(-1, 0, &turned));
}

#[test]
fn place_writes_the_cells_with_their_own_values() {
    let mut game = empty_game();
    game.board[19][0] = 2;
    game.tetromino = piece_at(vec![vec![0, 7, 0], vec![5, 6, 7]], 3, 18);
    game.place();
    let mut expected = vec![vec![0u8; 10]; 20];
    expected[19][0] = 2;
    expected[18][4] = 7;
    expected[19][3] = 5;
    expected[19][4] = 6;
    expected[19][5] = 7;
    assert_eq!(game.board, expected);
    assert_eq!(game.score, 0);
    assert_eq!(game.tetromino, piece_at(vec![vec![0, 7, 0], vec![5, 6, 7]], 3, 18));
}

#[test]
fn place_leaves_cells_under_the_holes_of_the_piece() {
    let mut game = empty_game();
    game.board[18][3] = 9;
    game.tetromino = piece_at(vec![vec![0, 1], vec![1, 1]], 3, 18);
    game.place();
    assert_eq!(game.board[18][3], 9);
    assert_eq!(game.board[18][4], 1);
    assert_eq!(game.board[19][3], 1);
    assert_eq!(game.board[19][4], 1);
}

#[test]
fn clear_lines_on_a_board_without_full_rows_changes_nothing() {
    let mut game = empty_game();
    game.board[19] = vec![1, 1, 1, 1, 1, 0, 1, 1, 1, 1];
    game.score = 3;
    let before = copy_cells(&game.board);
    game.clear_lines();
    assert_eq!(game.board, before);
    assert_eq!(game.score, 3);
}

#[test]
fn clear_lines_removes_full_rows_and_keeps_the_order_of_the_rest() {
    let mut game = empty_game();
    game.board[15] = vec![1, 0, 0, 0, 0, 0, 0, 0, 0, 0];
    game.board[16] = vec![2; 10];
    game.board[17] = vec![0, 3, 0, 0, 0, 0, 0, 0, 0, 0];
    game.board[18] = vec![4; 10];
    game.board[19] = vec![0, 0, 5, 0, 0, 0, 0, 0, 0, 0];
    game.score = 10;
    game.clear_lines();
    let mut expected = vec![vec![0u8; 10]; 20];
    expected[17] = vec![1, 0, 0, 0, 0, 0, 0, 0, 0, 0];
    expected[18] = vec![0, 3, 0, 0, 0, 0, 0, 0, 0, 0];
    expected[19] = vec![0, 0, 5, 0, 0, 0, 0, 0, 0, 0];
    assert_eq!(game.board, expected);
    assert_eq!(game.score, 12);
}

#[test]
fn clear_lines_empties_a_board_of_full_rows() {
    let mut game = empty_game();
    game.board = vec![vec![1u8; 10]; 20];
    game.clear_lines();
    assert_eq!(game.board, vec![vec![0u8; 10]; 20]);
    assert_eq!(game.score, 20);
}

#[test]
fn clear_lines_twice_is_clear_lines_once() {
    let mut game = empty_game();
    game.board[3] = vec![1; 10];
    game.board[7] = vec![0, 1, 1, 1, 1, 1, 1, 1, 1, 1];
    game.board[19] = vec![6; 10];
    game.clear_lines();
    let board = copy_cells(&game.board);
    let score = game.score;
    assert_eq!(score, 2);
    game.clear_lines();
    assert_eq!(game.board, board);
    assert_eq!(game.score, score);
}

#[test]
fn score_grows_by_the_number_of_rows_removed() {
    let mut game = empty_game();
    let mut total = 0;
    for full in [0usize, 1, 4, 2, 0, 3] {
        for row in 0..full {
            game.board[19 - row] = vec![1; 10];
        }
        let before = game.score;
        game.clear_lines();
        assert!(game.score >= before);
        assert_eq!(game.score, before + full);
        total += full;
    }
    assert_eq!(game.score, total);
}

#[test]
fn board_keeps_its_height_and_width() {
    let mut game = empty_game();
    for column in [0usize, 2, 4, 6, 8] {
        game.tetromino = piece_at(vec![vec![1, 1], vec![1, 1]], column, 18);
        assert!(game.can_move(0, 0, &game.tetromino));
        game.place();
        assert!(has_size(&game.board, 20, 10));
        game.clear_lines();
        assert!(has_size(&game.board, 20, 10));
    }
    assert_eq!(game.score, 2);
    assert_eq!(game.board, vec![vec![0u8; 10]; 20]);
}

#[test]
fn filling_the_gap_in_the_bottom_row_clears_it() {
    let mut game = empty_game();
    game.board[18] = vec![0, 0, 0, 2, 0, 0, 0, 0, 0, 0];
    game.board[19] = vec![1, 1, 1, 1, 1, 1, 0, 1, 1, 1];
    game.tetromino = piece_at(vec![vec![1]], 6, 19);
    assert!(game.can_move(0, 0, &game.tetromino));
    assert!(!game.can_move(0, 1, &game.tetromino));
    game.place();
    assert_eq!(game.board[19], vec![1u8; 10]);
    game.clear_lines();
    assert_eq!(game.score, 1);
    assert_eq!(game.board.len(), 20);
    assert_eq!(game.board[0], vec![0u8; 10]);
    assert_eq!(game.board[18], vec![0u8; 10]);
    assert_eq!(game.board[19], vec![0, 0, 0, 2, 0, 0, 0, 0, 0, 0]);
}

#[test]
fn lock_in_places_clears_and_spawns() {
    let mut game = empty_game();
    game.board[19] = vec![1, 1, 1, 1, 0, 0, 1, 1, 1, 1];
    game.board[18] = vec![1, 1, 1, 1, 0, 0, 1, 1, 1, 0];
    game.tetromino = piece_at(vec![vec![3, 3], vec![3, 3]], 4, 18);
    game.score = 5;
    game.lock_in(vec![vec![1, 1, 1, 1]]);
    let mut expected = vec![vec![0u8; 10]; 20];
    expected[19] = vec![1, 1, 1, 1, 3, 3, 1, 1, 1, 0];
    assert_eq!(game.board, expected);
    assert_eq!(game.score, 6);
    assert_eq!(game.tetromino, Tetromino { shape: vec![vec![1, 1, 1, 1]], x: 4, y: 0 });
}

#[test]
fn place_tetromino_spawns_a_canonical_piece() {
    let shapes = canonical_shapes();
    for _ in 0..100 {
        let mut game = empty_game();
        game.tetromino = piece_at(vec![vec![1, 1], vec![1, 1]], 0, 18);
        game.place_tetromino();
        let mut expected = vec![vec![0u8; 10]; 20];
        expected[18][0] = 1;
        expected[18][1] = 1;
        expected[19][0] = 1;
        expected[19][1] = 1;
        assert_eq!(game.board, expected);
        assert_eq!(game.score, 0);
        assert_eq!((game.tetromino.x, game.tetromino.y), (4, 0));
        assert!(shapes.contains(&game.tetromino.shape));
    }
}

#[test]
fn rows_are_told_full_or_not() {
    assert!(row_is_full(&vec![1, 2, 3]));
    assert!(!row_is_full(&vec![1, 0, 3]));
    assert!(row_is_full(&vec![]));
    assert!(!row_is_full(&vec![0u8; 10]));
}

#[test]
fn rows_and_matrices_are_made_and_copied() {
    assert_eq!(blank_row(10), vec![0u8; 10]);
    assert_eq!(blank_row(0), Vec::<u8>::new());
    assert_eq!(copy_row(&vec![4, 0, 9]), vec![4, 0, 9]);
    assert_eq!(copy_cells(&vec![vec![1], vec![], vec![2, 3]]), vec![vec![1], vec![], vec![2, 3]]);
    assert!(has_size(&vec![vec![0, 0], vec![1, 1]], 2, 2));
    assert!(!has_size(&vec![vec![0, 0], vec![1]], 2, 2));
    assert!(!has_size(&vec![vec![0, 0]], 2, 2));
    assert!(has_size(&vec![], 0, 5));
}
