//! The board: a square grid of cells, addressed by 1-based coordinates.

use vstd::prelude::*;
use crate::cell::{Cell, GameOutcome, Mark};
use crate::grid::{
    anti_diagonal_complete, blank, column_complete, diagonal_complete, has_empty, is_square,
    lookup, outcome, place, row_complete, wins, Grid,
};

verus! {

/// The side of a board made without a chosen size.
pub const DEFAULT_SIZE: u8 = 3;

/// A square board. Its side is fixed when it is made and is at least 1.
///
/// The cells are stored row after row in one vector; the view is the grid
/// they form.
pub struct Board {
    size: u8,
    cells: Vec<Cell>,
}

/// Where the cell of row `r` and column `c`, both 0-based, stands in the
/// storage of a board of side `n`.
spec fn offset(n: int, r: int, c: int) -> int {
    r * n + c
}

proof fn lemma_offset_on_board(n: int, r: int, c: int)
    requires
        0 <= r < n,
        0 <= c < n,
    ensures
        0 <= r * n <= offset(n, r, c) < n * n,
{
    assert(0 <= r * n && r * n + c < n * n) by (nonlinear_arith)
        requires
            0 <= r < n,
            0 <= c < n,
    ;
}

proof fn lemma_storage_fits(n: int)
    requires
        0 <= n <= u8::MAX,
    ensures
        n * n <= 65025,
{
    assert(n * n <= 65025) by (nonlinear_arith)
        requires
            0 <= n <= 255,
    ;
}

proof fn lemma_offset_distinct(n: int, r1: int, c1: int, r2: int, c2: int)
    requires
        0 <= c1 < n,
        0 <= c2 < n,
        r1 != r2 || c1 != c2,
    ensures
        offset(n, r1, c1) != offset(n, r2, c2),
{
    assert(r1 * n + c1 != r2 * n + c2) by (nonlinear_arith)
        requires
            0 <= c1 < n,
            0 <= c2 < n,
            r1 != r2 || c1 != c2,
    ;
}

impl View for Board {
    type V = Grid;

    closed spec fn view(&self) -> Grid {
        Seq::new(
            self.size as nat,
            |r: int| Seq::new(self.size as nat, |c: int| self.cells@[offset(self.size as int, r, c)]),
        )
    }
}

impl Board {
    #[verifier::type_invariant]
    spec fn well_formed(&self) -> bool {
        &&& self.size >= 1
        &&& self.cells@.len() == self.size * self.size
    }

    /// A board of side `size`, or of side 3 where none is given, with every
    /// cell empty.
    pub fn new(size: Option<u8>) -> (board: Board)
        requires
            size matches Some(n) ==> n >= 1,
        ensures
            board@ == blank(
                match size {
                    Some(n) => n as nat,
                    None => DEFAULT_SIZE as nat,
                },
            ),
    {
        let size: u8 = match size {
            Some(n) => n,
            None => DEFAULT_SIZE,
        };
        proof {
            lemma_storage_fits(size as int);
        }
        let count: usize = (size as usize) * (size as usize);
        let mut cells: Vec<Cell> = Vec::new();
        let mut i: usize = 0;
        while i < count
            invariant
                i <= count,
                cells@.len() == i,
                forall|k: int| 0 <= k < i ==> #[trigger] cells@[k] == Cell::Empty,
            decreases count - i,
        {
            cells.push(Cell::Empty);
            i = i + 1;
        }
        let board = Board { size, cells };
        proof {
            assert forall|r: int| 0 <= r < size implies board@[r] =~= blank(size as nat)[r] by {
                assert forall|c: int| 0 <= c < size implies board@[r][c] == Cell::Empty by {
                    lemma_offset_on_board(size as int, r, c);
                }
            }
            assert(board@ =~= blank(size as nat));
        }
        board
    }

    /// The side of the board.
    pub fn size(&self) -> (n: u8)
        ensures
            n >= 1,
            is_square(self@, n as nat),
    {
        proof {
            use_type_invariant(self);
        }
        self.size
    }

    /// Where the cell of row `r` and column `c`, both 0-based, is stored.
    fn slot(&self, r: u8, c: u8) -> (i: usize)
        requires
            r < self@.len(),
            c < self@.len(),
        ensures
            i == offset(self.size as int, r as int, c as int),
            i < self.cells@.len(),
    {
        proof {
            use_type_invariant(self);
            lemma_offset_on_board(self.size as int, r as int, c as int);
            lemma_storage_fits(self.size as int);
        }
        (r as usize) * (self.size as usize) + (c as usize)
    }

    /// The cell of row `r` and column `c`, both 0-based.
    fn at(&self, r: u8, c: u8) -> (cell: Cell)
        requires
            r < self@.len(),
            c < self@.len(),
        ensures
            cell == self@[r as int][c as int],
    {
        let i: usize = self.slot(r, c);
        self.cells[i]
    }

    /// The cell at the 1-based `(row, column)`, or `None` where either
    /// coordinate lies off the board.
    pub fn get_cell(&self, coords: (u8, u8)) -> (cell: Option<Cell>)
        ensures
            cell == lookup(self@, coords.0 as int, coords.1 as int),
    {
        proof {
            use_type_invariant(self);
        }
        if coords.0 == 0 || coords.0 > self.size || coords.1 == 0 || coords.1 > self.size {
            return None;
        }
        Some(self.at(coords.0 - 1, coords.1 - 1))
    }

    /// Writes `state` at the 1-based `(row, column)`. Coordinates off the
    /// board leave the board as it is.
    pub fn set_cell(&mut self, coords: (u8, u8), state: Cell)
        ensures
            final(self)@ == place(old(self)@, coords.0 as int, coords.1 as int, state),
    {
        proof {
            use_type_invariant(&*self);
        }
        if coords.0 == 0 || coords.0 > self.size || coords.1 == 0 || coords.1 > self.size {
            return;
        }
        let r: u8 = coords.0 - 1;
        let c: u8 = coords.1 - 1;
        let slot: usize = self.slot(r, c);
        self.cells[slot] = state;
        proof {
            let n = self.size as int;
            let want = place(old(self)@, coords.0 as int, coords.1 as int, state);
            assert forall|i: int, j: int| 0 <= i < n && 0 <= j < n implies self@[i][j] == want[i][j] by {
                lemma_offset_on_board(n, i, j);
                if i != r || j != c {
                    lemma_offset_distinct(n, i, j, r as int, c as int);
                }
            }
            assert forall|i: int| 0 <= i < n implies self@[i] =~= want[i] by {
            }
            assert(self@ =~= want);
        }
    }

    /// Empties every cell. The side stays what it was.
    pub fn clear_board(&mut self)
        ensures
            final(self)@ == blank(old(self)@.len()),
    {
        proof {
            use_type_invariant(&*self);
        }
        *self = Board::new(Some(self.size));
    }

    /// Whether `player` holds every cell of row `r`, 0-based.
    fn row_is_complete(&self, r: u8, player: Mark) -> (full: bool)
        requires
            r < self@.len(),
        ensures
            full == row_complete(self@, r as int, player),
    {
        let n: u8 = self.size();
        let mut c: u8 = 0;
        while c < n
            invariant
                c <= n,
                n == self@.len(),
                r < n,
                forall|j: int| 0 <= j < c ==> #[trigger] self@[r as int][j] == Cell::Occupied(player),
            decreases n - c,
        {
            if self.at(r, c) != Cell::Occupied(player) {
                return false;
            }
            c = c + 1;
        }
        true
    }

    /// Whether `player` holds every cell of column `c`, 0-based.
    fn column_is_complete(&self, c: u8, player: Mark) -> (full: bool)
        requires
            c < self@.len(),
        ensures
            full == column_complete(self@, c as int, player),
    {
        let n: u8 = self.size();
        let mut r: u8 = 0;
        while r < n
            invariant
                r <= n,
                n == self@.len(),
                c < n,
                forall|i: int| 0 <= i < r ==> #[trigger] self@[i][c as int] == Cell::Occupied(player),
            decreases n - r,
        {
            if self.at(r, c) != Cell::Occupied(player) {
                return false;
            }
            r = r + 1;
        }
        true
    }

    /// Whether `player` holds the diagonal from the top left corner.
    fn diagonal_is_complete(&self, player: Mark) -> (full: bool)
        ensures
            full == diagonal_complete(self@, player),
    {
        let n: u8 = self.size();
        let mut i: u8 = 0;
        while i < n
            invariant
                i <= n,
                n == self@.len(),
                forall|k: int| 0 <= k < i ==> #[trigger] self@[k][k] == Cell::Occupied(player),
            decreases n - i,
        {
            if self.at(i, i) != Cell::Occupied(player) {
                return false;
            }
            i = i + 1;
        }
        true
    }

    /// Whether `player` holds the diagonal from the top right corner.
    fn anti_diagonal_is_complete(&self, player: Mark) -> (full: bool)
        ensures
            full == anti_diagonal_complete(self@, player),
    {
        let n: u8 = self.size();
        let mut i: u8 = 0;
        while i < n
            invariant
                i <= n,
                n == self@.len(),
                forall|k: int| 0 <= k < i ==> (#[trigger] self@[k])[n - 1 - k] == Cell::Occupied(player),
            decreases n - i,
        {
            if self.at(i, n - 1 - i) != Cell::Occupied(player) {
                return false;
            }
            i = i + 1;
        }
        true
    }

    /// Whether `player` has won: some row, some column or one of the two
    /// diagonals holds the player's mark in every cell.
    pub fn check_board_win(&self, player: Mark) -> (won: bool)
        ensures
            won == wins(self@, player),
    {
        let n: u8 = self.size();
        let mut i: u8 = 0;
        while i < n
            invariant
                i <= n,
                n == self@.len(),
                forall|k: int| 0 <= k < i ==> !(#[trigger] row_complete(self@, k, player)),
                forall|k: int| 0 <= k < i ==> !(#[trigger] column_complete(self@, k, player)),
            decreases n - i,
        {
            if self.row_is_complete(i, player) || self.column_is_complete(i, player) {
                return true;
            }
            i = i + 1;
        }
        self.diagonal_is_complete(player) || self.anti_diagonal_is_complete(player)
    }

    /// Whether some cell is still empty.
    fn has_empty_cell(&self) -> (found: bool)
        ensures
            found == has_empty(self@),
    {
        let n: u8 = self.size();
        let mut r: u8 = 0;
        while r < n
            invariant
                r <= n,
                n == self@.len(),
                forall|i: int, j: int| 0 <= i < r && 0 <= j < n ==> #[trigger] self@[i][j] != Cell::Empty,
            decreases n - r,
        {
            let mut c: u8 = 0;
            while c < n
                invariant
                    c <= n,
                    r < n,
                    n == self@.len(),
                    forall|i: int, j: int| 0 <= i < r && 0 <= j < n ==> #[trigger] self@[i][j] != Cell::Empty,
                    forall|j: int| 0 <= j < c ==> #[trigger] self@[r as int][j] != Cell::Empty,
                decreases n - c,
            {
                if self.at(r, c) == Cell::Empty {
                    return true;
                }
                c = c + 1;
            }
            r = r + 1;
        }
        false
    }

    /// The outcome of the board as it stands: won by `X`, else won by `O`,
    /// else running while a cell is empty, else tied.
    pub fn get_board_score(&self) -> (score: GameOutcome)
        ensures
            score == outcome(self@),
    {
        if self.check_board_win(Mark::X) {
            GameOutcome::Won(Mark::X)
        } else if self.check_board_win(Mark::O) {
            GameOutcome::Won(Mark::O)
        } else if self.has_empty_cell() {
            GameOutcome::Running
        } else {
            GameOutcome::Tied
        }
    }
}

} // verus!
