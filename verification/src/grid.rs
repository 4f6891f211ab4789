//! The mathematical model of a board: a sequence of rows of cells, with the
//! definitions of a full line, of a win and of the outcome.
//!
//! Rows and columns are counted from 0 here, except in [`lookup`] and
//! [`place`], which take the 1-based coordinates that players type.

use vstd::prelude::*;
use crate::cell::{Cell, GameOutcome, Mark};

verus! {

/// Rows from top to bottom, each row from left to right.
pub type Grid = Seq<Seq<Cell>>;

/// `g` has `n` rows of `n` cells each.
pub open spec fn is_square(g: Grid, n: nat) -> bool {
    &&& g.len() == n
    &&& forall|r: int| 0 <= r < n ==> (#[trigger] g[r]).len() == n
}

/// The grid of `n` rows of `n` cells with no mark on it.
pub open spec fn blank(n: nat) -> Grid {
    Seq::new(n, |r: int| Seq::new(n, |c: int| Cell::Empty))
}

/// Both 1-based coordinates lie on a board of side `n`.
pub open spec fn on_board(n: nat, row: int, col: int) -> bool {
    1 <= row <= n && 1 <= col <= n
}

/// The cell at the 1-based coordinates, or `None` off the board.
pub open spec fn lookup(g: Grid, row: int, col: int) -> Option<Cell> {
    if on_board(g.len(), row, col) {
        Some(g[row - 1][col - 1])
    } else {
        None
    }
}

/// `g` with `value` written at the 1-based coordinates; `g` itself where the
/// coordinates lie off the board.
pub open spec fn place(g: Grid, row: int, col: int, value: Cell) -> Grid {
    if on_board(g.len(), row, col) {
        g.update(row - 1, g[row - 1].update(col - 1, value))
    } else {
        g
    }
}

/// Every cell of row `r` holds `mark`.
pub open spec fn row_complete(g: Grid, r: int, mark: Mark) -> bool {
    forall|c: int| 0 <= c < g.len() ==> #[trigger] g[r][c] == Cell::Occupied(mark)
}

/// Every cell of column `c` holds `mark`.
pub open spec fn column_complete(g: Grid, c: int, mark: Mark) -> bool {
    forall|r: int| 0 <= r < g.len() ==> #[trigger] g[r][c] == Cell::Occupied(mark)
}

/// Every cell from the top left corner to the bottom right one holds `mark`.
pub open spec fn diagonal_complete(g: Grid, mark: Mark) -> bool {
    forall|i: int| 0 <= i < g.len() ==> #[trigger] g[i][i] == Cell::Occupied(mark)
}

/// Every cell from the top right corner to the bottom left one holds `mark`.
pub open spec fn anti_diagonal_complete(g: Grid, mark: Mark) -> bool {
    forall|i: int| 0 <= i < g.len() ==> (#[trigger] g[i])[g.len() - 1 - i] == Cell::Occupied(mark)
}

/// `mark` fills some row, some column or one of the two diagonals.
pub open spec fn wins(g: Grid, mark: Mark) -> bool {
    ||| exists|r: int| 0 <= r < g.len() && #[trigger] row_complete(g, r, mark)
    ||| exists|c: int| 0 <= c < g.len() && #[trigger] column_complete(g, c, mark)
    ||| diagonal_complete(g, mark)
    ||| anti_diagonal_complete(g, mark)
}

/// Some cell is still empty.
pub open spec fn has_empty(g: Grid) -> bool {
    exists|r: int, c: int| 0 <= r < g.len() && 0 <= c < g.len() && #[trigger] g[r][c] == Cell::Empty
}

/// The outcome of a grid. `X` is looked at first, so a grid on which both
/// marks fill a line counts as won by `X`.
pub open spec fn outcome(g: Grid) -> GameOutcome {
    if wins(g, Mark::X) {
        GameOutcome::Won(Mark::X)
    } else if wins(g, Mark::O) {
        GameOutcome::Won(Mark::O)
    } else if has_empty(g) {
        GameOutcome::Running
    } else {
        GameOutcome::Tied
    }
}

/// A board with no mark on it is running, whatever its side: no line is
/// full, and a cell is empty.
pub proof fn lemma_blank_is_running(n: nat)
    requires
        n >= 1,
    ensures
        is_square(blank(n), n),
        outcome(blank(n)) == GameOutcome::Running,
{
    let g = blank(n);
    assert(g[0][0] == Cell::Empty);
    assert forall|mark: Mark| !wins(g, mark) by {
        assert forall|k: int| 0 <= k < n implies !row_complete(g, k, mark) && !column_complete(
            g,
            k,
            mark,
        ) by {
            assert(g[k][0] == Cell::Empty);
            assert(g[0][k] == Cell::Empty);
        }
        assert(g[0][n - 1] == Cell::Empty);
    }
}

/// A cell written on the board is the cell read back from the same
/// coordinates.
pub proof fn lemma_place_then_lookup(g: Grid, row: int, col: int, value: Cell)
    requires
        is_square(g, g.len()),
        on_board(g.len(), row, col),
    ensures
        lookup(place(g, row, col, value), row, col) == Some(value),
{
}

/// Writing a cell leaves the side of the board and every other cell as they
/// were.
pub proof fn lemma_place_keeps_the_rest(g: Grid, row: int, col: int, value: Cell, r: int, c: int)
    requires
        is_square(g, g.len()),
        on_board(g.len(), r, c),
        r != row || c != col,
    ensures
        is_square(place(g, row, col, value), g.len()),
        lookup(place(g, row, col, value), r, c) == lookup(g, r, c),
{
}

/// Nothing is read from coordinates off the board: not from row or column
/// 0, nor from the row or column just past the last.
pub proof fn lemma_lookup_off_board(g: Grid, row: int, col: int)
    ensures
        !on_board(g.len(), row, col) ==> lookup(g, row, col) is None,
        row == 0 || col == 0 || row == g.len() + 1 || col == g.len() + 1 ==> lookup(g, row, col) is None,
{
}

/// A row filled with `X` wins for `X`, whatever the other cells hold.
pub proof fn lemma_row_of_x_wins(g: Grid, r: int)
    requires
        0 <= r < g.len(),
        row_complete(g, r, Mark::X),
    ensures
        outcome(g) == GameOutcome::Won(Mark::X),
{
}

/// A board that holds `O` in every cell of the diagonal from the top left
/// corner, and nothing elsewhere, is won by `O`.
pub proof fn lemma_diagonal_of_o_wins(g: Grid)
    requires
        g.len() >= 1,
        is_square(g, g.len()),
        forall|r: int, c: int|
            0 <= r < g.len() && 0 <= c < g.len() ==> #[trigger] g[r][c] == if r == c {
                Cell::Occupied(Mark::O)
            } else {
                Cell::Empty
            },
    ensures
        outcome(g) == GameOutcome::Won(Mark::O),
{
    let n = g.len() as int;
    assert(diagonal_complete(g, Mark::O));
    assert forall|k: int| 0 <= k < n implies !row_complete(g, k, Mark::X) && !column_complete(
        g,
        k,
        Mark::X,
    ) by {
        assert(g[k][0] != Cell::Occupied(Mark::X));
        assert(g[0][k] != Cell::Occupied(Mark::X));
    }
    assert(g[0][0] != Cell::Occupied(Mark::X));
    assert(g[0][n - 1] != Cell::Occupied(Mark::X));
}

/// A board with no empty cell and no full line of either mark is tied.
pub proof fn lemma_full_without_line_is_tied(g: Grid)
    requires
        forall|r: int, c: int| 0 <= r < g.len() && 0 <= c < g.len() ==> #[trigger] g[r][c] != Cell::Empty,
        forall|mark: Mark| !wins(g, mark),
    ensures
        outcome(g) == GameOutcome::Tied,
{
}

} // verus!
