//! Sudoku grids and the domain validation predicates.
//!
//! A grid is nine rows of nine cells; a cell holds 0 for a blank or a
//! digit 1..=9.  The predicates here decide whether a grid respects the
//! Sudoku constraint (no value twice in a row, column or block) and
//! whether a submitted solution completes a given initial board.

use vstd::prelude::*;

verus! {

/// An initial Sudoku board, with 0 marking a blank cell.
#[derive(Debug, Clone)]
pub struct SudokuBoard {
    pub board: Vec<Vec<u8>>,
}

/// A proposed full solution grid.
#[derive(Debug, Clone)]
pub struct SudokuSolution {
    pub solution: Vec<Vec<u8>>,
}

/// A work request: the initial board together with the claimed solution.
#[derive(Debug, Clone)]
pub struct ProofInput {
    pub board: Vec<Vec<u8>>,
    pub solution: Vec<Vec<u8>>,
}

/// The grid has exactly nine rows of exactly nine cells.
pub open spec fn grid_dims_ok(g: Seq<Seq<u8>>) -> bool {
    g.len() == 9 && forall|i: int| 0 <= i < 9 ==> (#[trigger] g[i]).len() == 9
}

/// Row `r` of the grid, as the sequence of its nine cells.
pub open spec fn row_of(g: Seq<Seq<u8>>, r: int) -> Seq<u8> {
    g[r]
}

/// Column `c` of the grid, as the sequence of its nine cells.
pub open spec fn col_of(g: Seq<Seq<u8>>, c: int) -> Seq<u8> {
    Seq::new(9, |r: int| g[r][c])
}

/// Block `b` of the grid (blocks numbered row-major), as a sequence of
/// its nine cells in row-major order.
pub open spec fn block_of(g: Seq<Seq<u8>>, b: int) -> Seq<u8> {
    Seq::new(9, |k: int| g[3 * (b / 3) + k / 3][3 * (b % 3) + k % 3])
}

/// No non-blank value occurs twice in the sequence.
pub open spec fn no_dup_nonzero(s: Seq<u8>) -> bool {
    forall|a: int, b: int|
        0 <= a < b < s.len() && #[trigger] s[a] != 0 ==> s[a] != #[trigger] s[b]
}

/// The Sudoku constraint on a possibly partial grid: no row, column or
/// block holds the same non-blank value twice.
pub open spec fn valid_partial_grid(g: Seq<Seq<u8>>) -> bool {
    forall|k: int|
        0 <= k < 9 ==> no_dup_nonzero(#[trigger] row_of(g, k)) && no_dup_nonzero(col_of(g, k))
            && no_dup_nonzero(block_of(g, k))
}

/// Every cell is filled with a digit 1..=9.
pub open spec fn all_cells_filled(g: Seq<Seq<u8>>) -> bool {
    forall|i: int, j: int| 0 <= i < 9 && 0 <= j < 9 ==> 1 <= #[trigger] g[i][j] <= 9
}

/// A complete, constraint-respecting solution grid.
pub open spec fn valid_complete_grid(g: Seq<Seq<u8>>) -> bool {
    all_cells_filled(g) && valid_partial_grid(g)
}

/// Every non-blank cell of the initial board reappears unchanged in the
/// solution.
pub open spec fn matches_initial(b: Seq<Seq<u8>>, s: Seq<Seq<u8>>) -> bool {
    forall|i: int, j: int|
        0 <= i < 9 && 0 <= j < 9 && #[trigger] b[i][j] != 0 ==> b[i][j] == #[trigger] s[i][j]
}

/// What the domain validation accepts: a solution that is complete,
/// respects the Sudoku constraint, and extends the initial board.
pub open spec fn spec_verify_replay(b: Seq<Seq<u8>>, s: Seq<Seq<u8>>) -> bool {
    valid_complete_grid(s) && matches_initial(b, s)
}

/// Relates the two-level view of a grid slice to the views of its rows,
/// so that indexing into rows can be read off the grid view.
pub proof fn lemma_grid_view(board: &[Vec<u8>])
    ensures
        board.deep_view().len() == board@.len(),
        forall|i: int|
            #![trigger board@[i]]
            #![trigger board.deep_view()[i]]
            0 <= i < board@.len() ==> board@[i]@ == board.deep_view()[i],
{
    assert forall|i: int| 0 <= i < board@.len() implies board@[i]@ == board.deep_view()[i] by {
        assert(board.deep_view()[i] == board@[i].deep_view());
        assert forall|j: int| 0 <= j < board@[i]@.len() implies board@[i].deep_view()[j]
            == board@[i]@[j] by {}
        assert(board@[i]@ =~= board@[i].deep_view());
    }
}

/// The counterpart of `lemma_grid_view` for a grid held in a vector.
pub proof fn lemma_vec_grid_view(board: &Vec<Vec<u8>>)
    ensures
        board.deep_view().len() == board@.len(),
        forall|i: int|
            #![trigger board@[i]]
            #![trigger board.deep_view()[i]]
            0 <= i < board@.len() ==> board@[i]@ == board.deep_view()[i],
{
    assert forall|i: int| 0 <= i < board@.len() implies board@[i]@ == board.deep_view()[i] by {
        assert(board.deep_view()[i] == board@[i].deep_view());
        assert forall|j: int| 0 <= j < board@[i]@.len() implies board@[i].deep_view()[j]
            == board@[i]@[j] by {}
        assert(board@[i]@ =~= board@[i].deep_view());
    }
}

/// Returns true when row `r` holds no non-blank value twice.
#[verifier::loop_isolation(false)]
fn row_dup_free(board: &[Vec<u8>], r: usize) -> (res: bool)
    requires
        grid_dims_ok(board.deep_view()),
        r < 9,
    ensures
        res == no_dup_nonzero(row_of(board.deep_view(), r as int)),
{
    let ghost g = board.deep_view();
    proof { lemma_grid_view(board); }
    for a in 0..9usize
        invariant
            grid_dims_ok(g),
            g == board.deep_view(),
            r < 9,
            forall|x: int, y: int|
                0 <= x < y < 9 && x < a && #[trigger] g[r as int][x] != 0 ==> g[r as int][x]
                    != #[trigger] g[r as int][y],
    {
        for b in (a + 1)..9usize
            invariant
                grid_dims_ok(g),
                g == board.deep_view(),
                r < 9,
                a < b <= 9,
                forall|x: int, y: int|
                    0 <= x < y < 9 && x < a && #[trigger] g[r as int][x] != 0 ==> g[r as int][x]
                        != #[trigger] g[r as int][y],
                forall|y: int|
                    a < y < b && #[trigger] g[r as int][a as int] != 0 ==> g[r as int][a as int]
                        != g[r as int][y],
        {
            if board[r][a] != 0 && board[r][a] == board[r][b] {
                assert(!no_dup_nonzero(row_of(g, r as int)));
                return false;
            }
        }
    }
    true
}

/// Returns true when column `c` holds no non-blank value twice.
#[verifier::loop_isolation(false)]
fn col_dup_free(board: &[Vec<u8>], c: usize) -> (res: bool)
    requires
        grid_dims_ok(board.deep_view()),
        c < 9,
    ensures
        res == no_dup_nonzero(col_of(board.deep_view(), c as int)),
{
    let ghost g = board.deep_view();
    proof { lemma_grid_view(board); }
    let ghost col = col_of(g, c as int);
    for a in 0..9usize
        invariant
            grid_dims_ok(g),
            g == board.deep_view(),
            c < 9,
            col == col_of(g, c as int),
            forall|x: int, y: int|
                0 <= x < y < 9 && x < a && #[trigger] col[x] != 0 ==> col[x] != #[trigger] col[y],
    {
        for b in (a + 1)..9usize
            invariant
                grid_dims_ok(g),
                g == board.deep_view(),
                c < 9,
                a < b <= 9,
                col == col_of(g, c as int),
                forall|x: int, y: int|
                    0 <= x < y < 9 && x < a && #[trigger] col[x] != 0 ==> col[x]
                        != #[trigger] col[y],
                forall|y: int|
                    a < y < b && #[trigger] col[a as int] != 0 ==> col[a as int] != col[y],
        {
            if board[a][c] != 0 && board[a][c] == board[b][c] {
                assert(col[a as int] == g[a as int][c as int]);
                assert(col[b as int] == g[b as int][c as int]);
                assert(!no_dup_nonzero(col));
                return false;
            }
        }
    }
    true
}

/// Returns true when block `b` holds no non-blank value twice.
#[verifier::loop_isolation(false)]
fn block_dup_free(board: &[Vec<u8>], b: usize) -> (res: bool)
    requires
        grid_dims_ok(board.deep_view()),
        b < 9,
    ensures
        res == no_dup_nonzero(block_of(board.deep_view(), b as int)),
{
    let ghost g = board.deep_view();
    proof { lemma_grid_view(board); }
    let ghost blk = block_of(g, b as int);
    let base_row = 3 * (b / 3);
    let base_col = 3 * (b % 3);
    assert(base_row <= 6 && base_col <= 6);
    for x in 0..9usize
        invariant
            grid_dims_ok(g),
            g == board.deep_view(),
            b < 9,
            base_row == 3 * (b / 3) && base_col == 3 * (b % 3),
            blk == block_of(g, b as int),
            forall|p: int, q: int|
                0 <= p < q < 9 && p < x && #[trigger] blk[p] != 0 ==> blk[p] != #[trigger] blk[q],
    {
        for y in (x + 1)..9usize
            invariant
                grid_dims_ok(g),
                g == board.deep_view(),
                b < 9,
                x < y <= 9,
                base_row == 3 * (b / 3) && base_col == 3 * (b % 3),
                blk == block_of(g, b as int),
                forall|p: int, q: int|
                    0 <= p < q < 9 && p < x && #[trigger] blk[p] != 0 ==> blk[p]
                        != #[trigger] blk[q],
                forall|q: int|
                    x < q < y && #[trigger] blk[x as int] != 0 ==> blk[x as int] != blk[q],
        {
            let vx = board[base_row + x / 3][base_col + x % 3];
            let vy = board[base_row + y / 3][base_col + y % 3];
            assert(blk[x as int] == vx && blk[y as int] == vy);
            if vx != 0 && vx == vy {
                assert(!no_dup_nonzero(blk));
                return false;
            }
        }
    }
    true
}

/// Decides whether a (possibly partial) grid respects the Sudoku
/// constraint: no row, column or 3x3 block holds a non-blank value
/// twice.  Blank cells (0) never conflict.
#[verifier::loop_isolation(false)]
pub fn is_valid_sudoku(board: &[Vec<u8>]) -> (r: bool)
    requires
        grid_dims_ok(board.deep_view()),
    ensures
        r == valid_partial_grid(board.deep_view()),
{
    let ghost g = board.deep_view();
    proof { lemma_grid_view(board); }
    for k in 0..9usize
        invariant
            grid_dims_ok(g),
            g == board.deep_view(),
            forall|m: int|
                0 <= m < k ==> no_dup_nonzero(#[trigger] row_of(g, m)) && no_dup_nonzero(
                    col_of(g, m),
                ) && no_dup_nonzero(block_of(g, m)),
    {
        if !row_dup_free(board, k) {
            return false;
        }
        if !col_dup_free(board, k) {
            return false;
        }
        if !block_dup_free(board, k) {
            return false;
        }
    }
    true
}

/// Decides whether every cell of the grid is filled with a digit 1..=9.
#[verifier::loop_isolation(false)]
fn cells_all_filled(board: &[Vec<u8>]) -> (r: bool)
    requires
        grid_dims_ok(board.deep_view()),
    ensures
        r == all_cells_filled(board.deep_view()),
{
    let ghost g = board.deep_view();
    proof { lemma_grid_view(board); }
    for i in 0..9usize
        invariant
            grid_dims_ok(g),
            g == board.deep_view(),
            forall|x: int, y: int| 0 <= x < i && 0 <= y < 9 ==> 1 <= #[trigger] g[x][y] <= 9,
    {
        for j in 0..9usize
            invariant
                grid_dims_ok(g),
                g == board.deep_view(),
                i < 9,
                forall|x: int, y: int| 0 <= x < i && 0 <= y < 9 ==> 1 <= #[trigger] g[x][y] <= 9,
                forall|y: int| 0 <= y < j ==> 1 <= #[trigger] g[i as int][y] <= 9,
        {
            let cell = board[i][j];
            if cell < 1 || cell > 9 {
                return false;
            }
        }
    }
    true
}

/// Decides whether a grid is a complete, constraint-respecting Sudoku
/// solution: every cell filled with 1..=9 and no value repeated in any
/// row, column or block.
pub fn is_valid_solution(board: &[Vec<u8>]) -> (r: bool)
    requires
        grid_dims_ok(board.deep_view()),
    ensures
        r == valid_complete_grid(board.deep_view()),
{
    if !cells_all_filled(board) {
        return false;
    }
    is_valid_sudoku(board)
}

/// Decides whether every non-blank cell of `board` reappears unchanged
/// in `solution`.
#[verifier::loop_isolation(false)]
fn replay_matches(board: &[Vec<u8>], solution: &[Vec<u8>]) -> (r: bool)
    requires
        grid_dims_ok(board.deep_view()),
        grid_dims_ok(solution.deep_view()),
    ensures
        r == matches_initial(board.deep_view(), solution.deep_view()),
{
    let ghost b = board.deep_view();
    proof { lemma_grid_view(board); lemma_grid_view(solution); }
    let ghost s = solution.deep_view();
    for i in 0..9usize
        invariant
            grid_dims_ok(b),
            grid_dims_ok(s),
            b == board.deep_view(),
            s == solution.deep_view(),
            forall|x: int, y: int|
                0 <= x < i && 0 <= y < 9 && #[trigger] b[x][y] != 0 ==> b[x][y]
                    == #[trigger] s[x][y],
    {
        for j in 0..9usize
            invariant
                grid_dims_ok(b),
                grid_dims_ok(s),
                b == board.deep_view(),
                s == solution.deep_view(),
                i < 9,
                forall|x: int, y: int|
                    0 <= x < i && 0 <= y < 9 && #[trigger] b[x][y] != 0 ==> b[x][y]
                        == #[trigger] s[x][y],
                forall|y: int|
                    0 <= y < j && #[trigger] b[i as int][y] != 0 ==> b[i as int][y]
                        == #[trigger] s[i as int][y],
        {
            if board[i][j] != 0 && board[i][j] != solution[i][j] {
                return false;
            }
        }
    }
    true
}

/// Decides whether `solution` respects the Sudoku constraint and
/// extends `board`: the check run inside the proof computation.
/// Blank solution cells are tolerated here; completeness is the
/// concern of `verify_replay`.
pub fn verify_solution(board: &[Vec<u8>], solution: &[Vec<u8>]) -> (r: bool)
    requires
        grid_dims_ok(board.deep_view()),
        grid_dims_ok(solution.deep_view()),
    ensures
        r == (valid_partial_grid(solution.deep_view()) && matches_initial(
            board.deep_view(),
            solution.deep_view(),
        )),
{
    if !is_valid_sudoku(solution) {
        return false;
    }
    replay_matches(board, solution)
}

/// The domain validator: decides whether `solution` is a complete,
/// constraint-respecting grid that extends `initial_board`.
pub fn verify_replay(initial_board: &[Vec<u8>], solution: &[Vec<u8>]) -> (r: bool)
    requires
        grid_dims_ok(initial_board.deep_view()),
        grid_dims_ok(solution.deep_view()),
    ensures
        r == spec_verify_replay(initial_board.deep_view(), solution.deep_view()),
{
    if !is_valid_solution(solution) {
        return false;
    }
    replay_matches(initial_board, solution)
}

/// No cell in row `r`, column `c`, or the block containing (`r`, `c`)
/// already holds the value `n`.
pub open spec fn placement_free(g: Seq<Seq<u8>>, r: int, c: int, n: u8) -> bool {
    (forall|j: int| 0 <= j < 9 ==> #[trigger] g[r][j] != n) && (forall|i: int|
        0 <= i < 9 ==> #[trigger] g[i][c] != n) && (forall|i: int, j: int|
        0 <= i < 3 && 0 <= j < 3 ==> #[trigger] g[3 * (r / 3) + i][3 * (c / 3) + j] != n)
}

/// Decides whether the value `num` can be placed at (`row`, `col`)
/// without clashing with an equal value in the same row, column or
/// block.
#[verifier::loop_isolation(false)]
pub fn is_valid_placement(board: &[Vec<u8>], row: usize, col: usize, num: u8) -> (r: bool)
    requires
        grid_dims_ok(board.deep_view()),
        row < 9,
        col < 9,
    ensures
        r == placement_free(board.deep_view(), row as int, col as int, num),
{
    let ghost g = board.deep_view();
    proof { lemma_grid_view(board); }
    for i in 0..9usize
        invariant
            grid_dims_ok(g),
            g == board.deep_view(),
            row < 9,
            forall|j: int| 0 <= j < i ==> #[trigger] g[row as int][j] != num,
    {
        if board[row][i] == num {
            return false;
        }
    }
    for i in 0..9usize
        invariant
            grid_dims_ok(g),
            g == board.deep_view(),
            row < 9,
            col < 9,
            forall|j: int| 0 <= j < 9 ==> #[trigger] g[row as int][j] != num,
            forall|j: int| 0 <= j < i ==> #[trigger] g[j][col as int] != num,
    {
        if board[i][col] == num {
            return false;
        }
    }
    let box_row = (row / 3) * 3;
    let box_col = (col / 3) * 3;
    assert(box_row <= 6 && box_col <= 6);
    for i in 0..3usize
        invariant
            grid_dims_ok(g),
            g == board.deep_view(),
            row < 9,
            col < 9,
            box_row == 3 * ((row as int) / 3) && box_col == 3 * ((col as int) / 3),
            forall|j: int| 0 <= j < 9 ==> #[trigger] g[row as int][j] != num,
            forall|j: int| 0 <= j < 9 ==> #[trigger] g[j][col as int] != num,
            forall|x: int, y: int|
                0 <= x < i && 0 <= y < 3 ==> #[trigger] g[box_row + x][box_col + y] != num,
    {
        for j in 0..3usize
            invariant
                grid_dims_ok(g),
                g == board.deep_view(),
                row < 9,
                col < 9,
                i < 3,
                box_row == 3 * ((row as int) / 3) && box_col == 3 * ((col as int) / 3),
                forall|x: int, y: int|
                    0 <= x < i && 0 <= y < 3 ==> #[trigger] g[box_row + x][box_col + y] != num,
                forall|y: int| 0 <= y < j ==> #[trigger] g[box_row + i][box_col + y] != num,
        {
            if board[box_row + i][box_col + j] == num {
                return false;
            }
        }
    }
    true
}

} // verus!
