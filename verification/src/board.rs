//! The board and the rule that decides a game.

use vstd::prelude::*;

verus! {

/// Rows and columns of the board.
pub const BOARD_SIZE: usize = 15;

/// What a cell of the board holds.
#[derive(Debug, Clone, Copy, PartialEq, Eq, Structural)]
pub enum Piece {
    Empty,
    Black,
    White,
}

/// Rows of cells.
pub type Board = [[Piece; BOARD_SIZE]; BOARD_SIZE];

/// The board as a mathematical object: a sequence of rows.
pub type Grid = Seq<Seq<Piece>>;

/// The cells of a board.
pub open spec fn grid(board: Board) -> Grid {
    Seq::new(BOARD_SIZE as nat, |r: int| board@[r]@)
}

/// A grid with as many rows and columns as the board has.
pub open spec fn is_grid(g: Grid) -> bool {
    &&& g.len() == BOARD_SIZE
    &&& forall|r: int| 0 <= r < BOARD_SIZE ==> (#[trigger] g[r]).len() == BOARD_SIZE
}

/// The grid on which nobody has moved.
pub open spec fn empty_grid() -> Grid {
    Seq::new(BOARD_SIZE as nat, |r: int| Seq::new(BOARD_SIZE as nat, |c: int| Piece::Empty))
}

/// `g` with `p` in row `r` and column `c`.
pub open spec fn place(g: Grid, r: int, c: int, p: Piece) -> Grid {
    g.update(r, g[r].update(c, p))
}

/// Row `r` and column `c` name a cell.
pub open spec fn on_board(r: int, c: int) -> bool {
    0 <= r < BOARD_SIZE && 0 <= c < BOARD_SIZE
}

/// The side that moves after `p`.
pub open spec fn opponent(p: Piece) -> Piece {
    if p == Piece::Black {
        Piece::White
    } else {
        Piece::Black
    }
}

/// A coordinate read as a two's complement number: those beyond the largest
/// signed one lie before the edge of the board.
pub open spec fn signed(n: usize) -> int {
    if n <= isize::MAX {
        n as int
    } else {
        n - usize::MAX - 1
    }
}

/// The cell `j` steps of `(dr, dc)` away from `(r, c)` exists and holds `p`.
pub open spec fn stone(g: Grid, r: int, c: int, dr: int, dc: int, j: int, p: Piece) -> bool {
    on_board(r + dr * j, c + dc * j) && g[r + dr * j][c + dc * j] == p
}

/// With `(r, c)` taken as filled, the five cells in a line that begin `back`
/// steps before it all hold `p`.
pub open spec fn five_with(g: Grid, r: int, c: int, dr: int, dc: int, p: Piece, back: int) -> bool {
    forall|j: int| -back <= j <= 4 - back && j != 0 ==> #[trigger] stone(g, r, c, dr, dc, j, p)
}

/// With `(r, c)` taken as filled, some five cells in a line along `(dr, dc)`
/// that go through it all hold `p`.
pub open spec fn wins_along(g: Grid, r: int, c: int, dr: int, dc: int, p: Piece) -> bool {
    exists|back: int| 0 <= back <= 4 && #[trigger] five_with(g, r, c, dr, dc, p, back)
}

/// A line runs along a row, along a column or along one of the two diagonals.
pub open spec fn is_direction(dr: int, dc: int) -> bool {
    ||| dr == 0 && dc == 1
    ||| dr == 1 && dc == 0
    ||| dr == 1 && dc == 1
    ||| dr == 1 && dc == -1
}

/// A piece `p` in `(r, c)` completes five in a row.
pub open spec fn wins(g: Grid, r: int, c: int, p: Piece) -> bool {
    ||| wins_along(g, r, c, 0, 1, p)
    ||| wins_along(g, r, c, 1, 0, p)
    ||| wins_along(g, r, c, 1, 1, p)
    ||| wins_along(g, r, c, 1, -1, p)
}

/// A board on which nobody has moved.
pub fn empty_board() -> (board: Board)
    ensures
        grid(board) == empty_grid(),
{
    let board: Board = [[Piece::Empty; BOARD_SIZE]; BOARD_SIZE];
    assert forall|r: int| 0 <= r < BOARD_SIZE implies #[trigger] grid(board)[r]
        =~= empty_grid()[r] by {}
    assert(grid(board) =~= empty_grid());
    board
}

/// Puts `p` in row `r` and column `c`.
pub fn put(board: &mut Board, r: usize, c: usize, p: Piece)
    requires
        on_board(r as int, c as int),
    ensures
        grid(*final(board)) == place(grid(*old(board)), r as int, c as int, p),
{
    board[r][c] = p;
    assert(grid(*board) =~= place(grid(*old(board)), r as int, c as int, p));
}

fn signed_coordinate(n: usize) -> (s: i128)
    ensures
        s == signed(n),
{
    if n <= isize::MAX as usize {
        n as i128
    } else {
        n as i128 - usize::MAX as i128 - 1
    }
}

/// How many cells in a row hold `p`, up to four, on one side of `(r, c)`.
fn run_length(board: &Board, r: i128, c: i128, dr: i128, dc: i128, p: Piece) -> (n: i128)
    requires
        isize::MIN <= r <= isize::MAX,
        isize::MIN <= c <= isize::MAX,
        -1 <= dr <= 1,
        -1 <= dc <= 1,
    ensures
        0 <= n <= 4,
        forall|j: int|
            1 <= j <= n ==> #[trigger] stone(
                grid(*board),
                r as int,
                c as int,
                dr as int,
                dc as int,
                j,
                p,
            ),
        n < 4 ==> !stone(grid(*board), r as int, c as int, dr as int, dc as int, n + 1, p),
{
    let mut n: i128 = 0;
    while n < 4
        invariant
            0 <= n <= 4,
            isize::MIN <= r <= isize::MAX,
            isize::MIN <= c <= isize::MAX,
            -1 <= dr <= 1,
            -1 <= dc <= 1,
            forall|j: int|
                1 <= j <= n ==> #[trigger] stone(
                    grid(*board),
                    r as int,
                    c as int,
                    dr as int,
                    dc as int,
                    j,
                    p,
                ),
        decreases 4 - n,
    {
        let i: i128 = n + 1;
        assert(-4 <= dr * i <= 4 && -4 <= dc * i <= 4) by (nonlinear_arith)
            requires
                -1 <= dr <= 1,
                -1 <= dc <= 1,
                0 <= i <= 4,
        ;
        let nr: i128 = r + dr * i;
        let nc: i128 = c + dc * i;
        let size: i128 = BOARD_SIZE as i128;
        if nr >= 0 && nr < size && nc >= 0 && nc < size {
            if board[nr as usize][nc as usize] != p {
                return n;
            }
        } else {
            return n;
        }
        n = i;
    }
    n
}

/// Whether `p` in `(r, c)` completes five in a row along `(dr, dc)`.
fn five_along(board: &Board, r: i128, c: i128, dr: i128, dc: i128, p: Piece) -> (won: bool)
    requires
        isize::MIN <= r <= isize::MAX,
        isize::MIN <= c <= isize::MAX,
        -1 <= dr <= 1,
        -1 <= dc <= 1,
    ensures
        won == wins_along(grid(*board), r as int, c as int, dr as int, dc as int, p),
{
    let ahead: i128 = run_length(board, r, c, dr, dc, p);
    let behind: i128 = run_length(board, r, c, -dr, -dc, p);
    proof {
        let g = grid(*board);
        let (ri, ci, dri, dci) = (r as int, c as int, dr as int, dc as int);
        assert forall|j: int| #[trigger]
            stone(g, ri, ci, -dri, -dci, j, p) == stone(g, ri, ci, dri, dci, -j, p) by {
            assert(-dri * j == dri * -j && -dci * j == dci * -j) by (nonlinear_arith);
        }
        if 1 + ahead + behind >= 5 {
            let back = behind as int;
            assert forall|j: int| -back <= j <= 4 - back && j != 0 implies #[trigger] stone(
                g, ri, ci, dri, dci, j, p) by {
                if j < 0 {
                    assert(stone(g, ri, ci, -dri, -dci, -j, p));
                }
            }
            assert(five_with(g, ri, ci, dri, dci, p, back));
        } else {
            assert forall|back: int| 0 <= back <= 4 implies !#[trigger] five_with(
                g, ri, ci, dri, dci, p, back) by {
                if back > behind {
                    assert(!stone(g, ri, ci, -dri, -dci, behind + 1, p));
                    assert(!stone(g, ri, ci, dri, dci, -(behind + 1), p));
                } else {
                    assert(!stone(g, ri, ci, dri, dci, ahead + 1, p));
                }
            }
        }
    }
    1 + ahead + behind >= 5
}

/// Whether a piece `p` put in row `r` and column `c` completes five in a row
/// or more. The cell itself counts as filled, whatever it holds.
pub fn check_win(
    board: &[[Piece; BOARD_SIZE]; BOARD_SIZE],
    r: usize,
    c: usize,
    p: Piece,
) -> (won: bool)
    ensures
        won == wins(grid(*board), signed(r), signed(c), p),
{
    let row: i128 = signed_coordinate(r);
    let column: i128 = signed_coordinate(c);
    five_along(board, row, column, 0, 1, p) || five_along(board, row, column, 1, 0, p)
        || five_along(board, row, column, 1, 1, p) || five_along(board, row, column, 1, -1, p)
}


/// Five cells in a line, the first of them `(r, c)`, all hold `p`.
pub open spec fn five_from(g: Grid, r: int, c: int, dr: int, dc: int, p: Piece) -> bool {
    forall|j: int| 0 <= j <= 4 ==> #[trigger] stone(g, r, c, dr, dc, j, p)
}

/// Somewhere on the grid five cells in a line hold `p`.
pub open spec fn has_five(g: Grid, p: Piece) -> bool {
    exists|r: int, c: int, dr: int, dc: int|
        is_direction(dr, dc) && #[trigger] five_from(g, r, c, dr, dc, p)
}

/// How many of `cells` hold `p`.
pub open spec fn count_in_row(cells: Seq<Piece>, p: Piece) -> nat
    decreases cells.len(),
{
    if cells.len() == 0 {
        0
    } else {
        count_in_row(cells.drop_last(), p) + if cells.last() == p {
            1nat
        } else {
            0
        }
    }
}

/// How many cells of `g` hold `p`.
pub open spec fn count(g: Grid, p: Piece) -> nat
    decreases g.len(),
{
    if g.len() == 0 {
        0
    } else {
        count(g.drop_last(), p) + count_in_row(g.last(), p)
    }
}

proof fn lemma_shifted_stone(g: Grid, r: int, c: int, dr: int, dc: int, k: int, j: int, p: Piece)
    ensures
        stone(g, r + dr * k, c + dc * k, dr, dc, j, p) == stone(g, r, c, dr, dc, k + j, p),
{
    assert(dr * k + dr * j == dr * (k + j)) by (nonlinear_arith);
    assert(dc * k + dc * j == dc * (k + j)) by (nonlinear_arith);
}

proof fn lemma_wins_along_gives_five(g: Grid, r: int, c: int, dr: int, dc: int, p: Piece)
    requires
        is_direction(dr, dc),
        stone(g, r, c, dr, dc, 0, p),
        wins_along(g, r, c, dr, dc, p),
    ensures
        has_five(g, p),
{
    let back = choose|back: int| 0 <= back <= 4 && #[trigger] five_with(g, r, c, dr, dc, p, back);
    let (r0, c0) = (r + dr * -back, c + dc * -back);
    assert forall|j: int| 0 <= j <= 4 implies #[trigger] stone(g, r0, c0, dr, dc, j, p) by {
        lemma_shifted_stone(g, r, c, dr, dc, -back, j, p);
        assert(stone(g, r, c, dr, dc, j - back, p));
    }
    assert(five_from(g, r0, c0, dr, dc, p));
}

/// Where `(r, c)` holds `p` and the move there wins, five cells in a line hold
/// `p`.
pub proof fn law_win_shows_five(g: Grid, r: int, c: int, p: Piece)
    requires
        is_grid(g),
        on_board(r, c),
        g[r][c] == p,
        wins(g, r, c, p),
    ensures
        has_five(g, p),
{
    assert forall|dr: int, dc: int| #[trigger] stone(g, r, c, dr, dc, 0, p) by {
        assert(dr * 0 == 0 && dc * 0 == 0);
    }
    assert(stone(g, r, c, 0, 1, 0, p) && stone(g, r, c, 1, 0, 0, p) && stone(g, r, c, 1, 1, 0, p)
        && stone(g, r, c, 1, -1, 0, p));
    if wins_along(g, r, c, 0, 1, p) {
        lemma_wins_along_gives_five(g, r, c, 0, 1, p);
    } else if wins_along(g, r, c, 1, 0, p) {
        lemma_wins_along_gives_five(g, r, c, 1, 0, p);
    } else if wins_along(g, r, c, 1, 1, p) {
        lemma_wins_along_gives_five(g, r, c, 1, 1, p);
    } else {
        lemma_wins_along_gives_five(g, r, c, 1, -1, p);
    }
}

/// On a grid without five in a row of `p`, a move of `p` wins exactly if five
/// in a row of `p` stand on the grid after it: no line is missed, wherever in
/// it the move falls, and none is made up.
pub proof fn law_win_is_first_five(g: Grid, r: int, c: int, p: Piece)
    requires
        is_grid(g),
        on_board(r, c),
        !has_five(g, p),
    ensures
        wins(place(g, r, c, p), r, c, p) <==> has_five(place(g, r, c, p), p),
{
    let after = place(g, r, c, p);
    assert(is_grid(after)) by {
        assert forall|i: int| 0 <= i < BOARD_SIZE implies (#[trigger] after[i]).len()
            == BOARD_SIZE by {
            assert(g[i].len() == BOARD_SIZE);
        }
    }
    assert(g[r].len() == BOARD_SIZE);
    assert(after[r][c] == p);
    if wins(after, r, c, p) {
        law_win_shows_five(after, r, c, p);
    }
    if has_five(after, p) {
        let (r0, c0, dr, dc) = choose|r0: int, c0: int, dr: int, dc: int|
            is_direction(dr, dc) && #[trigger] five_from(after, r0, c0, dr, dc, p);
        assert(!five_from(g, r0, c0, dr, dc, p));
        let k = choose|k: int| 0 <= k <= 4 && !#[trigger] stone(g, r0, c0, dr, dc, k, p);
        assert(stone(after, r0, c0, dr, dc, k, p));
        let (rk, ck) = (r0 + dr * k, c0 + dc * k);
        assert(g[rk].len() == BOARD_SIZE);
        assert(rk == r && ck == c);
        assert forall|j: int| -k <= j <= 4 - k && j != 0 implies #[trigger] stone(
            after, r, c, dr, dc, j, p) by {
            lemma_shifted_stone(after, r0, c0, dr, dc, k, j, p);
            assert(stone(after, r0, c0, dr, dc, k + j, p));
        }
        assert(five_with(after, r, c, dr, dc, p, k));
        assert(wins_along(after, r, c, dr, dc, p));
    }
}

proof fn lemma_count_row_update(cells: Seq<Piece>, c: int, p: Piece, q: Piece)
    requires
        0 <= c < cells.len(),
    ensures
        count_in_row(cells.update(c, p), q) + (if cells[c] == q { 1int } else { 0 })
            == count_in_row(cells, q) + (if p == q { 1int } else { 0 }),
    decreases cells.len(),
{
    let after = cells.update(c, p);
    if c == cells.len() - 1 {
        assert(after.drop_last() =~= cells.drop_last());
    } else {
        assert(after.drop_last() =~= cells.drop_last().update(c, p));
        lemma_count_row_update(cells.drop_last(), c, p, q);
    }
}

/// A move changes the number of cells that hold `q` by the cell it fills.
pub(crate) proof fn lemma_count_place(g: Grid, r: int, c: int, p: Piece, q: Piece)
    requires
        0 <= r < g.len(),
        0 <= c < g[r].len(),
    ensures
        count(place(g, r, c, p), q) + (if g[r][c] == q { 1int } else { 0 }) == count(g, q) + (
        if p == q { 1int } else { 0 }),
    decreases g.len(),
{
    let after = place(g, r, c, p);
    if r == g.len() - 1 {
        assert(after.drop_last() =~= g.drop_last());
        lemma_count_row_update(g[r], c, p, q);
    } else {
        assert(after.drop_last() =~= place(g.drop_last(), r, c, p));
        lemma_count_place(g.drop_last(), r, c, p, q);
    }
}

proof fn lemma_count_empty_row(cells: Seq<Piece>, q: Piece)
    requires
        q != Piece::Empty,
        forall|i: int| 0 <= i < cells.len() ==> cells[i] == Piece::Empty,
    ensures
        count_in_row(cells, q) == 0,
    decreases cells.len(),
{
    if cells.len() > 0 {
        lemma_count_empty_row(cells.drop_last(), q);
    }
}

/// A grid without a piece counts none of either side.
pub(crate) proof fn lemma_count_empty(g: Grid, q: Piece)
    requires
        q != Piece::Empty,
        forall|r: int, c: int| 0 <= r < g.len() && 0 <= c < g[r].len() ==> g[r][c] == Piece::Empty,
    ensures
        count(g, q) == 0,
    decreases g.len(),
{
    if g.len() > 0 {
        lemma_count_empty(g.drop_last(), q);
        lemma_count_empty_row(g.last(), q);
    }
}

/// Every cell of a board is where the grid shows it, and there is no other.
pub proof fn law_grid_shows_board(board: Board, r: int, c: int)
    requires
        0 <= r < 15,
        0 <= c < 15,
    ensures
        grid(board).len() == 15,
        grid(board)[r].len() == 15,
        grid(board)[r][c] == board@[r]@[c],
{
}

/// The grid on which nobody has moved has fifteen rows of fifteen empty cells.
pub proof fn law_empty_grid_is_empty(r: int, c: int)
    requires
        0 <= r < 15,
        0 <= c < 15,
    ensures
        empty_grid().len() == 15,
        empty_grid()[r].len() == 15,
        empty_grid()[r][c] == Piece::Empty,
{
}

/// A move fills the cell it names, whatever that held, and no other.
pub proof fn law_move_fills_one_cell(g: Grid, r: int, c: int, p: Piece, i: int, j: int)
    requires
        0 <= r < g.len(),
        0 <= c < g[r].len(),
        0 <= i < g.len(),
        0 <= j < g[i].len(),
    ensures
        place(g, r, c, p).len() == g.len(),
        place(g, r, c, p)[i].len() == g[i].len(),
        i == r && j == c ==> place(g, r, c, p)[i][j] == p,
        i != r || j != c ==> place(g, r, c, p)[i][j] == g[i][j],
{
}

/// Black moves after white, and white after black.
pub proof fn law_sides_take_turns(p: Piece)
    requires
        p == Piece::Black || p == Piece::White,
    ensures
        opponent(p) != p,
        opponent(p) != Piece::Empty,
        opponent(opponent(p)) == p,
{
}

/// A coordinate is read as the signed number that is the same up to the number
/// of coordinates there are. One on the board is read as it is.
pub proof fn law_coordinates_are_signed(n: usize)
    ensures
        isize::MIN <= signed(n) <= isize::MAX,
        signed(n) == n || signed(n) + usize::MAX + 1 == n,
        n < 15 ==> signed(n) == n,
{
}

/// A piece wins that lies in a line of five of its side, the other four of
/// which are there: along a row, a column or a diagonal, and in whichever place
/// of the five it lies.
pub proof fn law_line_of_five_wins(g: Grid, r: int, c: int, p: Piece, dr: int, dc: int, k: int)
    requires
        0 <= k <= 4,
        (dr, dc) == (0int, 1int) || (dr, dc) == (1int, 0int) || (dr, dc) == (1int, 1int) || (dr, dc)
            == (1int, -1int),
        forall|j: int|
            #![trigger g[r + dr * (j - k)][c + dc * (j - k)]]
            0 <= j <= 4 && j != k ==> {
                &&& 0 <= r + dr * (j - k) < 15
                &&& 0 <= c + dc * (j - k) < 15
                &&& g[r + dr * (j - k)][c + dc * (j - k)] == p
            },
    ensures
        wins(g, r, c, p),
{
    assert forall|i: int| -k <= i <= 4 - k && i != 0 implies #[trigger] stone(
        g, r, c, dr, dc, i, p) by {
        let j = i + k;
        assert(j - k == i);
        assert(0 <= r + dr * (j - k) < 15 && g[r + dr * (j - k)][c + dc * (j - k)] == p);
    }
    assert(five_with(g, r, c, dr, dc, p, k));
    assert(wins_along(g, r, c, dr, dc, p));
}

/// A piece that wins lies in a line of five of its side: the direction of one
/// such line, and the place of the piece in it.
pub proof fn law_win_lies_in_line_of_five(g: Grid, r: int, c: int, p: Piece) -> (line: (
    int,
    int,
    int,
))
    requires
        wins(g, r, c, p),
    ensures
        ({
            let (dr, dc, k) = line;
            &&& 0 <= k <= 4
            &&& (dr, dc) == (0int, 1int) || (dr, dc) == (1int, 0int) || (dr, dc) == (1int, 1int)
                || (dr, dc) == (1int, -1int)
            &&& forall|j: int|
                #![trigger g[r + dr * (j - k)][c + dc * (j - k)]]
                0 <= j <= 4 && j != k ==> {
                    &&& 0 <= r + dr * (j - k) < 15
                    &&& 0 <= c + dc * (j - k) < 15
                    &&& g[r + dr * (j - k)][c + dc * (j - k)] == p
                }
        }),
{
    let (dr, dc) = if wins_along(g, r, c, 0, 1, p) {
        (0int, 1int)
    } else if wins_along(g, r, c, 1, 0, p) {
        (1int, 0int)
    } else if wins_along(g, r, c, 1, 1, p) {
        (1int, 1int)
    } else {
        (1int, -1int)
    };
    let k = choose|k: int| 0 <= k <= 4 && #[trigger] five_with(g, r, c, dr, dc, p, k);
    assert forall|j: int|
        #![trigger g[r + dr * (j - k)][c + dc * (j - k)]]
        0 <= j <= 4 && j != k implies {
        &&& 0 <= r + dr * (j - k) < 15
        &&& 0 <= c + dc * (j - k) < 15
        &&& g[r + dr * (j - k)][c + dc * (j - k)] == p
    } by {
        assert(stone(g, r, c, dr, dc, j - k, p));
    }
    (dr, dc, k)
}

} // verus!
