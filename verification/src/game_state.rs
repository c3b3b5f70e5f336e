use vstd::prelude::*;

use crate::board::{initial_board, occ, Board};
use crate::move_descriptor::MoveDescriptor;
use crate::piece::OwnedPiece;
use crate::player::Player;
use crate::rules::{board_after, board_condition, legal_move, BoardCondition};

verus! {

/// The signal handed outward after a move request.
#[derive(Clone, Copy, PartialEq, Eq, Structural, Debug)]
pub enum StateUpdate {
    Continue,
    InvalidMove,
    Draw,
    Win(Player),
}

/// How far a game has progressed.
#[derive(Clone, Copy, PartialEq, Eq, Structural, Debug)]
pub enum GameStatus {
    InProgress,
    Won(Player),
    Drawn,
}

/// Why a move request was refused: applied after a terminal outcome, no
/// piece at the origin, a piece of the side not on turn, or a move outside
/// the legal set. All four surface as `StateUpdate::InvalidMove`.
#[derive(Clone, Copy, PartialEq, Eq, Structural, Debug)]
pub enum MoveError {
    GameOver,
    NoPieceAtOrigin,
    WrongPlayersPiece,
    IllegalMove,
}

/// One game: a board, whose turn it is, and how far the game has
/// progressed. Created once per game and mutated only ply by ply through
/// `play`; after a terminal outcome every further request is refused
/// without mutation.
#[derive(Clone, Debug)]
pub struct GameState {
    board: Board,
    turn: Player,
    status: GameStatus,
}

impl GameState {
    pub closed spec fn spec_board(self) -> Seq<Option<OwnedPiece>> {
        self.board@
    }

    pub closed spec fn spec_turn(self) -> Player {
        self.turn
    }

    pub closed spec fn spec_status(self) -> GameStatus {
        self.status
    }

    /// Why `move_command` would be refused in this state, or `None` for a
    /// move that will be accepted: `GameOver` after a terminal outcome,
    /// `NoPieceAtOrigin` for an empty origin square, `WrongPlayersPiece`
    /// for a piece of the side not on turn, and `IllegalMove` for a
    /// destination outside the self-check-filtered legal set.
    pub open spec fn spec_move_error(self, move_command: MoveDescriptor) -> Option<MoveError> {
        let b = self.spec_board();
        let f0 = move_command.spec_from().file as int;
        let r0 = move_command.spec_from().rank as int;
        let f1 = move_command.spec_to().file as int;
        let r1 = move_command.spec_to().rank as int;
        if !(self.spec_status() is InProgress) {
            Some(MoveError::GameOver)
        } else {
            match occ(b, f0, r0) {
                None => Some(MoveError::NoPieceAtOrigin),
                Some(q) => if q.player != self.spec_turn() {
                    Some(MoveError::WrongPlayersPiece)
                } else if !legal_move(b, self.spec_turn(), f0, r0, f1, r1) {
                    Some(MoveError::IllegalMove)
                } else {
                    None
                },
            }
        }
    }

    /// A fresh game on the standard starting position.
    pub fn new(starting_player: Player) -> (g: GameState)
        ensures
            g.spec_board() == initial_board(),
            g.spec_turn() == starting_player,
            g.spec_status() is InProgress,
    {
        GameState { board: Board::new(), turn: starting_player, status: GameStatus::InProgress }
    }

    /// A game resumed from an arbitrary position with `turn` to move.
    pub fn from_position(board: Board, turn: Player) -> (g: GameState)
        ensures
            g.spec_board() == board@,
            g.spec_turn() == turn,
            g.spec_status() is InProgress,
    {
        GameState { board, turn, status: GameStatus::InProgress }
    }

    /// The current board.
    pub fn board(&self) -> (b: &Board)
        ensures
            b@ == self.spec_board(),
    {
        &self.board
    }

    /// The side whose turn it is.
    pub fn turn(&self) -> (p: Player)
        ensures
            p == self.spec_turn(),
    {
        self.turn
    }

    /// How far the game has progressed.
    pub fn status(&self) -> (s: GameStatus)
        ensures
            s == self.spec_status(),
    {
        self.status
    }

    /// Checks a move request against this state without applying it.
    pub fn validate_move(&self, move_command: MoveDescriptor) -> (r: Result<(), MoveError>)
        ensures
            r matches Err(e) ==> Some(e) == self.spec_move_error(move_command),
            (r is Ok) <==> (self.spec_move_error(move_command) is None),
    {
        if !matches!(self.status, GameStatus::InProgress) {
            return Err(MoveError::GameOver);
        }
        let from = move_command.from();
        match self.board.get(from) {
            None => Err(MoveError::NoPieceAtOrigin),
            Some(q) => {
                if q.player != self.turn {
                    Err(MoveError::WrongPlayersPiece)
                } else if !self.board.is_move_valid(move_command) {
                    Err(MoveError::IllegalMove)
                } else {
                    Ok(())
                }
            },
        }
    }

    /// Validates and applies one ply. A refused request (see
    /// `spec_move_error`) returns `InvalidMove` and changes nothing. An
    /// accepted move is applied to the board, promotion included; then the
    /// position is re-evaluated for the other side: the game continues with
    /// the turn flipped, or ends won by the mover (checkmate) or drawn
    /// (stalemate).
    pub fn play(&mut self, move_command: MoveDescriptor) -> (r: StateUpdate)
        ensures
            old(self).spec_move_error(move_command) is Some ==> {
                &&& r == StateUpdate::InvalidMove
                &&& final(self).spec_board() == old(self).spec_board()
                &&& final(self).spec_turn() == old(self).spec_turn()
                &&& final(self).spec_status() == old(self).spec_status()
            },
            old(self).spec_move_error(move_command) is None ==> {
                let t = old(self).spec_turn();
                let b2 = board_after(
                    old(self).spec_board(),
                    move_command.spec_from().file as int,
                    move_command.spec_from().rank as int,
                    move_command.spec_to().file as int,
                    move_command.spec_to().rank as int,
                );
                &&& final(self).spec_board() == b2
                &&& match board_condition(b2, t.spec_other()) {
                    BoardCondition::Continue => r == StateUpdate::Continue
                        && final(self).spec_status() is InProgress
                        && final(self).spec_turn() == t.spec_other(),
                    BoardCondition::Win(w) => r == StateUpdate::Win(w) && w == t
                        && final(self).spec_status() == GameStatus::Won(w)
                        && final(self).spec_turn() == t,
                    BoardCondition::Draw => r == StateUpdate::Draw
                        && final(self).spec_status() is Drawn
                        && final(self).spec_turn() == t,
                }
            },
    {
        match self.validate_move(move_command) {
            Err(_) => StateUpdate::InvalidMove,
            Ok(()) => {
                let from = move_command.from();
                let to = move_command.to();
                let b2 = self.board.after_move(from, to);
                self.board = b2;
                match self.board.evaluate_bord(self.turn.other()) {
                    BoardCondition::Win(player) => {
                        self.status = GameStatus::Won(player);
                        StateUpdate::Win(player)
                    },
                    BoardCondition::Draw => {
                        self.status = GameStatus::Drawn;
                        StateUpdate::Draw
                    },
                    BoardCondition::Continue => {
                        self.turn = self.turn.other();
                        StateUpdate::Continue
                    },
                }
            },
        }
    }
}

} // verus!
