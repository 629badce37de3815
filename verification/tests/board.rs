use gcli::board::{check_win, empty_board, put, Piece, BOARD_SIZE};

fn board_with(cells: &[(usize, usize)], p: Piece) -> [[Piece; BOARD_SIZE]; BOARD_SIZE] {
    let mut board = empty_board();
    for &(r, c) in cells {
        put(&mut board, r, c, p);
    }
    board
}

#[test]
fn empty_board_holds_no_piece() {
    let board = empty_board();
    assert_eq!(board.len(), 15);
    assert!(board.iter().all(|row| row.len() == 15 && row.iter().all(|&p| p == Piece::Empty)));
}

#[test]
fn put_fills_one_cell() {
    let board = board_with(&[(3, 4)], Piece::White);
    for r in 0..BOARD_SIZE {
        for c in 0..BOARD_SIZE {
            let expected = if (r, c) == (3, 4) { Piece::White } else { Piece::Empty };
            assert_eq!(board[r][c], expected);
        }
    }
}

#[test]
fn five_in_each_direction_wins_from_every_cell_of_the_line() {
    let dirs: [(isize, isize); 4] = [(0, 1), (1, 0), (1, 1), (1, -1)];
    for (dr, dc) in dirs {
        let line: Vec<(usize, usize)> =
            (0..5).map(|i| ((5 + dr * i) as usize, (7 + dc * i) as usize)).collect();
        let board = board_with(&line, Piece::Black);
        for &(r, c) in &line {
            assert!(check_win(&board, r, c, Piece::Black), "{:?} from {:?}", (dr, dc), (r, c));
            assert!(!check_win(&board, r, c, Piece::White));
        }
    }
}

#[test]
fn four_do_not_win() {
    let board = board_with(&[(7, 3), (7, 4), (7, 5), (7, 6)], Piece::Black);
    assert!(!check_win(&board, 7, 3, Piece::Black));
    assert!(!check_win(&board, 7, 6, Piece::Black));
}

#[test]
fn the_cell_itself_counts_as_filled() {
    let board = board_with(&[(7, 3), (7, 4), (7, 6), (7, 7)], Piece::Black);
    assert_eq!(board[7][5], Piece::Empty);
    assert!(check_win(&board, 7, 5, Piece::Black));
    assert!(!check_win(&board, 7, 8, Piece::Black));
}

#[test]
fn six_in_a_row_win_too() {
    let board = board_with(&[(0, 0), (0, 1), (0, 2), (0, 3), (0, 4), (0, 5)], Piece::White);
    assert!(check_win(&board, 0, 0, Piece::White));
    assert!(check_win(&board, 0, 3, Piece::White));
}

#[test]
fn lines_do_not_run_over_the_edge() {
    let board = board_with(&[(0, 12), (0, 13), (0, 14), (1, 0), (1, 1)], Piece::Black);
    assert!(!check_win(&board, 0, 14, Piece::Black));
    assert!(!check_win(&board, 1, 0, Piece::Black));
}

#[test]
fn a_gap_breaks_the_line() {
    let board = board_with(&[(2, 2), (3, 3), (4, 4), (6, 6), (7, 7)], Piece::Black);
    assert!(!check_win(&board, 4, 4, Piece::Black));
    assert!(check_win(&board, 5, 5, Piece::Black));
}

#[test]
fn corners_win() {
    let board = board_with(&[(14, 0), (13, 1), (12, 2), (11, 3), (10, 4)], Piece::White);
    assert!(check_win(&board, 14, 0, Piece::White));
    assert!(check_win(&board, 10, 4, Piece::White));
}

#[test]
fn coordinates_off_the_board_are_no_cells() {
    let board = board_with(&[(0, 3), (1, 3), (2, 3), (3, 3)], Piece::Black);
    assert!(!check_win(&board, 15, 3, Piece::Black));
    assert!(!check_win(&board, isize::MAX as usize, 3, Piece::Black));
    assert!(!check_win(&board, 3, isize::MAX as usize + 1, Piece::Black));
    // One row before the first one.
    assert!(check_win(&board, usize::MAX, 3, Piece::Black));
    assert!(!check_win(&board, usize::MAX - 1, 3, Piece::Black));
}

#[test]
fn empty_cells_count_like_any_other() {
    let board = empty_board();
    assert!(check_win(&board, 7, 7, Piece::Empty));
}
