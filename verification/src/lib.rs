//! Tic-tac-toe on a square board of any side: a board with full-line win detection, a
//! turn-taking game state machine, the grammar of a typed move and the text
//! form of the grid.
//!
//! Every executable function carries a contract over the mathematical model
//! in [`grid`], and the facts that relate several operations are proved there
//! and in [`game`].

pub mod cell;
pub mod grid;
pub mod board;
pub mod game;
pub mod input;
pub mod render;
