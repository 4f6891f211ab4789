//! The game: whose turn it is, and what one requested move does to it.
//!
//! A game is a state machine. Its states are running, with a player to
//! move, and finished, with a result; which of the two holds is read off
//! the board. [`Game::submit_move`] is its one transition: it takes what a
//! player asked for and says what the caller has to do next.

use vstd::prelude::*;
use crate::board::{Board, DEFAULT_SIZE};
use crate::cell::{Cell, GameOutcome, Mark};
use crate::grid::{blank, lemma_blank_is_running, lookup, outcome, place, Grid};

verus! {

/// What the caller of [`Game::submit_move`] has to do next.
#[derive(Clone, Copy, Debug, PartialEq, Eq, Structural)]
pub enum Action {
    /// The request was refused and nothing changed: report invalid input
    /// and ask the same player again.
    Reprompt,
    /// The mark was placed and the game goes on: ask the other player.
    NextTurn,
    /// The game is over with this result: report it and stop.
    Finish(GameOutcome),
}

impl Action {
    /// What is to be said to the players on this action, if anything.
    pub open spec fn message_text(self) -> Option<Seq<char>> {
        match self {
            Action::Reprompt => Some("Invalid input."@),
            Action::NextTurn => None,
            Action::Finish(GameOutcome::Won(Mark::X)) => Some("X won!"@),
            Action::Finish(GameOutcome::Won(Mark::O)) => Some("O win!"@),
            Action::Finish(GameOutcome::Tied) => Some("It's a tie."@),
            Action::Finish(GameOutcome::Running) => None,
        }
    }

    /// What is to be said to the players on this action, if anything.
    pub fn message(self) -> (text: Option<&'static str>)
        ensures
            self.message_text() == match text {
                Some(t) => Some(t@),
                None => None,
            },
    {
        match self {
            Action::Reprompt => Some("Invalid input."),
            Action::NextTurn => None,
            Action::Finish(GameOutcome::Won(Mark::X)) => Some("X won!"),
            Action::Finish(GameOutcome::Won(Mark::O)) => Some("O win!"),
            Action::Finish(GameOutcome::Tied) => Some("It's a tie."),
            Action::Finish(GameOutcome::Running) => None,
        }
    }
}

/// The mathematical model of a game.
pub struct GameState {
    /// The board.
    pub grid: Grid,
    /// The player to move.
    pub turn: Mark,
    /// The player a person moves for.
    pub human: Mark,
}

impl GameState {
    /// The state a game of side `n` starts in: an empty board, `X` to move.
    pub open spec fn initial(n: nat) -> GameState {
        GameState { grid: blank(n), turn: Mark::X, human: Mark::X }
    }

    /// The game has not ended.
    pub open spec fn running(self) -> bool {
        outcome(self.grid) == GameOutcome::Running
    }

    /// The request names an empty cell of the board.
    pub open spec fn allows(self, request: Option<(u8, u8)>) -> bool {
        match request {
            Some((row, col)) => lookup(self.grid, row as int, col as int) == Some(Cell::Empty),
            None => false,
        }
    }

    /// This state with the other player to move.
    pub open spec fn with_turn_passed(self) -> GameState {
        GameState { turn: self.turn.opponent(), ..self }
    }

    /// The transition. A finished game stays as it is and repeats its
    /// result. A running game refuses a request that names no empty cell of
    /// the board. Otherwise the mark of the player to move is placed; the
    /// turn passes if the game is still running, and the result is given if
    /// it is not.
    pub open spec fn step(self, request: Option<(u8, u8)>) -> (GameState, Action) {
        if !self.running() {
            (self, Action::Finish(outcome(self.grid)))
        } else {
            match request {
                Some((row, col)) if self.allows(request) => {
                    let grid = place(self.grid, row as int, col as int, Cell::Occupied(self.turn));
                    let placed = GameState { grid, ..self };
                    if placed.running() {
                        (placed.with_turn_passed(), Action::NextTurn)
                    } else {
                        (placed, Action::Finish(outcome(grid)))
                    }
                },
                _ => (self, Action::Reprompt),
            }
        }
    }
}

/// A game in progress or at its end. It owns its board.
pub struct Game {
    board: Board,
    current_player: Mark,
    human_player: Mark,
}

impl View for Game {
    type V = GameState;

    closed spec fn view(&self) -> GameState {
        GameState { grid: self.board@, turn: self.current_player, human: self.human_player }
    }
}

impl Game {
    /// A new game on a board of side `size`, or of side 3 where none is
    /// given. `X` moves first, and a person moves for `X`.
    pub fn new(size: Option<u8>) -> (game: Game)
        requires
            size matches Some(n) ==> n >= 1,
        ensures
            game@ == GameState::initial(
                match size {
                    Some(n) => n as nat,
                    None => DEFAULT_SIZE as nat,
                },
            ),
    {
        Game { board: Board::new(size), current_player: Mark::X, human_player: Mark::X }
    }

    /// Passes the turn to the other player.
    pub fn switch_current_player(&mut self)
        ensures
            final(self)@ == old(self)@.with_turn_passed(),
    {
        self.current_player = self.current_player.other();
    }

    /// Takes one request of the player to move: the 1-based `(row, column)`
    /// of a cell, or `None` where what the player typed was no move.
    pub fn submit_move(&mut self, request: Option<(u8, u8)>) -> (action: Action)
        ensures
            (final(self)@, action) == old(self)@.step(request),
    {
        let standing: GameOutcome = self.board.get_board_score();
        if standing != GameOutcome::Running {
            return Action::Finish(standing);
        }
        let coords: (u8, u8) = match request {
            Some(coords) => coords,
            None => {
                return Action::Reprompt;
            },
        };
        match self.board.get_cell(coords) {
            Some(Cell::Empty) => {},
            _ => {
                return Action::Reprompt;
            },
        }
        self.board.set_cell(coords, Cell::Occupied(self.current_player));
        let score: GameOutcome = self.board.get_board_score();
        if score == GameOutcome::Running {
            self.switch_current_player();
            Action::NextTurn
        } else {
            Action::Finish(score)
        }
    }

    /// The line that tells the player to move that it is their turn.
    pub fn prompt(&self) -> (text: &'static str)
        ensures
            text@ == match self@.turn {
                Mark::X => "X's turn!"@,
                Mark::O => "O's turn!"@,
            },
    {
        match self.current_player {
            Mark::X => "X's turn!",
            Mark::O => "O's turn!",
        }
    }

    /// The board as it stands.
    pub fn board(&self) -> (board: &Board)
        ensures
            board@ == self@.grid,
    {
        &self.board
    }

    /// The player to move.
    pub fn current_player(&self) -> (mark: Mark)
        ensures
            mark == self@.turn,
    {
        self.current_player
    }

    /// The player a person moves for.
    pub fn human_player(&self) -> (mark: Mark)
        ensures
            mark == self@.human,
    {
        self.human_player
    }
}

/// A game on a board of side 1 or more starts running, with `X` to move.
pub proof fn lemma_game_starts_running(n: nat)
    requires
        n >= 1,
    ensures
        GameState::initial(n).running(),
        GameState::initial(n).turn == Mark::X,
{
    lemma_blank_is_running(n);
}

/// Nothing leads out of a finished game: whatever is asked, the state stays
/// as it is and the answer is the result.
pub proof fn lemma_finished_game_stays(state: GameState, request: Option<(u8, u8)>)
    requires
        !state.running(),
    ensures
        state.step(request) == (state, Action::Finish(outcome(state.grid))),
        outcome(state.grid) != GameOutcome::Running,
{
}

/// A request that names an occupied cell changes nothing, and while the
/// game is running it is answered by a reprompt and nothing else.
pub proof fn lemma_occupied_cell_is_refused(state: GameState, row: u8, col: u8)
    requires
        lookup(state.grid, row as int, col as int) matches Some(Cell::Occupied(_)),
    ensures
        state.step(Some((row, col))).0 == state,
        state.running() ==> state.step(Some((row, col))).1 == Action::Reprompt,
{
}

/// An accepted move writes the mover's mark into the cell asked for and
/// nothing else; the turn passes exactly when the game goes on, and the
/// game is finished after an answer that gives a result.
pub proof fn lemma_accepted_move(state: GameState, row: u8, col: u8)
    requires
        state.running(),
        state.allows(Some((row, col))),
    ensures
        ({
            let (next, action) = state.step(Some((row, col)));
            &&& next.grid == place(state.grid, row as int, col as int, Cell::Occupied(state.turn))
            &&& next.human == state.human
            &&& action != Action::Reprompt
            &&& action == Action::NextTurn <==> next.running()
            &&& action == Action::NextTurn ==> next.turn == state.turn.opponent()
            &&& action matches Action::Finish(result) ==> result == outcome(next.grid) && result
                != GameOutcome::Running && next.turn == state.turn
        }),
{
}

} // verus!
