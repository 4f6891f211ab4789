//! The values a board is made of: marks, cells and outcomes.

use vstd::prelude::*;

verus! {

/// One of the two symbols. A mark is both what occupies a cell and the
/// identity of the player who places it.
#[derive(Clone, Copy, Debug, PartialEq, Eq, Structural)]
pub enum Mark {
    X,
    O,
}

/// One position on the board.
#[derive(Clone, Copy, Debug, PartialEq, Eq, Structural)]
pub enum Cell {
    Empty,
    Occupied(Mark),
}

/// What a board amounts to at some point of the game.
#[derive(Clone, Copy, Debug, PartialEq, Eq, Structural)]
pub enum GameOutcome {
    Running,
    Tied,
    Won(Mark),
}

impl Mark {
    /// The mark of the other player.
    pub open spec fn opponent(self) -> Mark {
        match self {
            Mark::X => Mark::O,
            Mark::O => Mark::X,
        }
    }

    /// The mark of the other player.
    pub fn other(self) -> (mark: Mark)
        ensures
            mark == self.opponent(),
    {
        match self {
            Mark::X => Mark::O,
            Mark::O => Mark::X,
        }
    }
}

} // verus!
