use sudoku_backend::grid::is_valid_placement;
use sudoku_backend::grid::is_valid_solution;
use sudoku_backend::grid::is_valid_sudoku;
use sudoku_backend::grid::verify_replay;
use sudoku_backend::grid::verify_solution;

fn grid(rows: [[u8; 9]; 9]) -> Vec<Vec<u8>> {
    rows.iter().map(|r| r.to_vec()).collect()
}

fn puzzle() -> Vec<Vec<u8>> {
    grid([
        [5, 3, 0, 0, 7, 0, 0, 0, 0],
        [6, 0, 0, 1, 9, 5, 0, 0, 0],
        [0, 9, 8, 0, 0, 0, 0, 6, 0],
        [8, 0, 0, 0, 6, 0, 0, 0, 3],
        [4, 0, 0, 8, 0, 3, 0, 0, 1],
        [7, 0, 0, 0, 2, 0, 0, 0, 6],
        [0, 6, 0, 0, 0, 0, 2, 8, 0],
        [0, 0, 0, 4, 1, 9, 0, 0, 5],
        [0, 0, 0, 0, 8, 0, 0, 7, 9],
    ])
}

fn completion() -> Vec<Vec<u8>> {
    grid([
        [5, 3, 4, 6, 7, 8, 9, 1, 2],
        [6, 7, 2, 1, 9, 5, 3, 4, 8],
        [1, 9, 8, 3, 4, 2, 5, 6, 7],
        [8, 5, 9, 7, 6, 1, 4, 2, 3],
        [4, 2, 6, 8, 5, 3, 7, 9, 1],
        [7, 1, 3, 9, 2, 4, 8, 5, 6],
        [9, 6, 1, 5, 3, 7, 2, 8, 4],
        [2, 8, 7, 4, 1, 9, 6, 3, 5],
        [3, 4, 5, 2, 8, 6, 1, 7, 9],
    ])
}

#[test]
fn partial_puzzle_is_valid_sudoku() {
    assert!(is_valid_sudoku(&puzzle()));
}

#[test]
fn complete_solution_is_valid() {
    assert!(is_valid_sudoku(&completion()));
    assert!(is_valid_solution(&completion()));
}

#[test]
fn blank_cell_fails_solution_but_not_partial_check() {
    let mut g = completion();
    g[4][4] = 0;
    assert!(is_valid_sudoku(&g));
    assert!(!is_valid_solution(&g));
}

#[test]
fn duplicate_in_row_is_rejected() {
    let mut g = completion();
    g[0][1] = 5; // row 0 now holds two 5s
    assert!(!is_valid_sudoku(&g));
    assert!(!is_valid_solution(&g));
}

#[test]
fn duplicate_in_column_is_rejected() {
    let mut g = puzzle();
    g[8][0] = 5; // column 0 already holds a 5 in row 0
    assert!(!is_valid_sudoku(&g));
}

#[test]
fn duplicate_in_block_is_rejected() {
    let mut g = puzzle();
    g[1][1] = 5; // top-left block already holds a 5
    assert!(!is_valid_sudoku(&g));
}

#[test]
fn replay_of_genuine_completion_passes() {
    assert!(verify_replay(&puzzle(), &completion()));
    assert!(verify_solution(&puzzle(), &completion()));
}

#[test]
fn replay_rejects_changed_given_cell() {
    let mut s = completion();
    // puzzle()[0][0] == 5; a solution overwriting a given cell is no replay
    s[0][0] = 9;
    s[0][6] = 5; // keep the row free of duplicates
    assert!(!verify_replay(&puzzle(), &s));
    assert!(!verify_solution(&puzzle(), &s));
}

#[test]
fn replay_rejects_incomplete_solution() {
    let mut s = completion();
    s[0][2] = 0; // a cell the puzzle leaves blank
    assert!(!verify_replay(&puzzle(), &s));
    // verify_solution tolerates blanks as long as the rest matches
    assert!(verify_solution(&puzzle(), &s));
}

#[test]
fn placement_respects_row_column_and_block() {
    let p = puzzle();
    // 5 already sits in row 0, column 0 and the top-left block
    assert!(!is_valid_placement(&p, 0, 2, 5));
    assert!(!is_valid_placement(&p, 2, 0, 5));
    assert!(!is_valid_placement(&p, 1, 1, 5));
    // 1 clashes with nothing at (0, 2)
    assert!(is_valid_placement(&p, 0, 2, 1));
    // column 2 holds an 8 (row 2)
    assert!(!is_valid_placement(&p, 0, 2, 8));
}
