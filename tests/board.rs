use tetrominos::{Board, Color, Piece, HEIGHT, WIDTH};

fn occupied(b: &Board, r: usize, c: usize) -> bool {
    b.board[r][c] != 0
}

fn row_is_empty(b: &Board, r: usize) -> bool {
    (0..WIDTH).all(|c| b.board[r][c] == 0 && b.color_board[r][c] == Color::Black)
}

/// Fills rows 18 and 19: two I pieces on each, and an O at the right end.
fn two_full_bottom_rows() -> Board {
    let mut b = Board::new();
    b.save(Piece::I, 19, 1, Color::Blue);
    b.save(Piece::I, 19, 5, Color::Blue);
    b.save(Piece::I, 18, 1, Color::Green);
    b.save(Piece::I, 18, 5, Color::Green);
    b.save(Piece::O, 18, 8, Color::Yellow);
    b
}

#[test]
fn new_board_is_empty() {
    let b = Board::new();
    assert_eq!(b.width, 10);
    assert_eq!(b.height, 20);
    for r in 0..HEIGHT {
        assert!(row_is_empty(&b, r));
    }
}

#[test]
fn no_collision_on_empty_cells_in_bounds() {
    let b = Board::new();
    assert!(!b.detect_collision(Piece::O, 0, 4));
    assert!(!b.detect_collision(Piece::I, 19, 1));
    assert!(!b.detect_collision(Piece::IR, 1, -1));
    assert!(!b.detect_collision(Piece::O, 18, 8));
}

#[test]
fn collision_off_the_playfield() {
    let b = Board::new();
    // I spans columns column - 1 to column + 2.
    assert!(b.detect_collision(Piece::I, 5, 0));
    assert!(b.detect_collision(Piece::I, 5, 8));
    // O spans rows row to row + 1.
    assert!(b.detect_collision(Piece::O, 19, 4));
    assert!(b.detect_collision(Piece::O, -1, 4));
    // IR's top cell is one row above its anchor.
    assert!(b.detect_collision(Piece::IR, 0, 4));
}

#[test]
fn collision_with_an_occupied_cell() {
    let mut b = Board::new();
    b.save(Piece::O, 10, 4, Color::Red);
    assert!(b.detect_collision(Piece::O, 11, 5));
    assert!(b.detect_collision(Piece::I, 10, 2));
    assert!(!b.detect_collision(Piece::O, 8, 4));
    assert!(!b.detect_collision(Piece::O, 10, 6));
}

#[test]
fn save_marks_cells_in_color() {
    let mut b = Board::new();
    b.save(Piece::T, 10, 3, Color::Magenta);
    // T: one cell at (row, column), three at row + 1 from column - 1.
    let cells = [(10, 3), (11, 2), (11, 3), (11, 4)];
    for r in 0..HEIGHT {
        for c in 0..WIDTH {
            if cells.contains(&(r, c)) {
                assert!(occupied(&b, r, c));
                assert_eq!(b.color_board[r][c], Color::Magenta);
            } else {
                assert!(!occupied(&b, r, c));
                assert_eq!(b.color_board[r][c], Color::Black);
            }
        }
    }
}

#[test]
fn save_keeps_other_blocks() {
    let mut b = Board::new();
    b.save(Piece::O, 18, 0, Color::Red);
    b.save(Piece::O, 18, 4, Color::Cyan);
    assert!(occupied(&b, 18, 0) && occupied(&b, 19, 1));
    assert_eq!(b.color_board[19][1], Color::Red);
    assert!(occupied(&b, 18, 4) && occupied(&b, 19, 5));
    assert_eq!(b.color_board[18][5], Color::Cyan);
    assert!(!occupied(&b, 18, 2));
}

#[test]
fn endgame_on_the_top_row() {
    let b = Board::new();
    // O at anchor row 0 has cells on rows 0 and 1.
    assert!(b.detect_endgame(Piece::O, 0));
    // IR at anchor row 1 has its top cell on row 0.
    assert!(b.detect_endgame(Piece::IR, 1));
    assert!(b.detect_endgame(Piece::I, 0));
}

#[test]
fn no_endgame_inside_the_playfield() {
    let b = Board::new();
    assert!(!b.detect_endgame(Piece::O, 1));
    assert!(!b.detect_endgame(Piece::I, 18));
    assert!(!b.detect_endgame(Piece::IR, 2));
    assert!(!b.detect_endgame(Piece::T2, 0));
}

#[test]
fn clearing_without_full_rows_changes_nothing() {
    let mut b = Board::new();
    b.save(Piece::I, 19, 1, Color::Blue);
    b.save(Piece::O, 18, 5, Color::Red);
    b.save(Piece::T, 16, 8, Color::Green);
    let board = b.board;
    let colors = b.color_board;
    assert_eq!(b.handle_completed_lines(17), 0);
    assert_eq!(b.board, board);
    assert_eq!(b.color_board, colors);
    assert_eq!(b.handle_completed_lines(30), 0);
    assert_eq!(b.handle_completed_lines(-5), 0);
    assert_eq!(b.board, board);
}

#[test]
fn clearing_one_full_bottom_row() {
    let mut b = two_full_bottom_rows();
    // Scanning rows 0 to 18 clears row 18 alone: row 19 stays full and
    // everything above is empty.
    assert_eq!(b.handle_completed_lines(16), 1);
    assert!((0..WIDTH).all(|c| occupied(&b, 19, c)));
    for r in 0..19 {
        assert!(row_is_empty(&b, r));
    }
    let colors = b.color_board;
    assert_eq!(b.handle_completed_lines(17), 1);
    for r in 0..HEIGHT {
        assert!(row_is_empty(&b, r));
    }
    assert_eq!(colors[19][0], Color::Blue);
}

#[test]
fn clearing_two_rows_drops_the_row_above() {
    let mut b = two_full_bottom_rows();
    b.save(Piece::I, 17, 1, Color::Red);
    b.save(Piece::IR, 16, 6, Color::Cyan);
    // Row 17 now holds columns 0 to 3 in red and column 7 in cyan; rows 15
    // and 16 hold column 7 in cyan too.
    assert_eq!(b.handle_completed_lines(17), 2);
    for c in 0..WIDTH {
        let expected = match c {
            0..=3 => Some(Color::Red),
            7 => Some(Color::Cyan),
            _ => None,
        };
        match expected {
            Some(color) => {
                assert!(occupied(&b, 19, c));
                assert_eq!(b.color_board[19][c], color);
            }
            None => {
                assert!(!occupied(&b, 19, c));
                assert_eq!(b.color_board[19][c], Color::Black);
            }
        }
    }
    for r in 17..19 {
        for c in 0..WIDTH {
            assert_eq!(occupied(&b, r, c), c == 7);
        }
    }
    for r in 0..17 {
        assert!(row_is_empty(&b, r));
    }
}

#[test]
fn clearing_leaves_rows_below_the_scan() {
    let mut b = two_full_bottom_rows();
    // A piece anchored on row 10 reaches row 12: rows 18 and 19 are below.
    assert_eq!(b.handle_completed_lines(10), 0);
    assert!((0..WIDTH).all(|c| occupied(&b, 18, c) && occupied(&b, 19, c)));
}
