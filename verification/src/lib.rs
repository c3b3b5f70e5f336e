//! A rules engine for chess on an 8x8 board.
//!
//! The crate decides, for a given position, which moves are legal, applies
//! accepted moves, and reports when the game has ended. It covers board
//! storage, per-piece movement geometry, check detection, legal-move
//! filtering and the game-progress state machine. Castling, en passant and
//! draw rules beyond stalemate are deliberately not part of this engine;
//! a pawn reaching the farthest rank is promoted to a queen, the one choice
//! the move encoding can express.

mod board;
mod game_state;
mod move_descriptor;
mod parameters;
mod piece;
mod player;
mod rules;
mod square;

pub use board::{Board, BoardIter, BOARD_SIZE};
pub use board::{back_row_piece, initial_board, initial_piece, occ, on_board, sq_index};
pub use board::lemma_initial_board_kings;
pub use game_state::{GameState, GameStatus, MoveError, StateUpdate};
pub use move_descriptor::{char_to_num, MoveDescriptor};
pub use move_descriptor::{char_coord, is_file_char, is_rank_char, wf_move_text};
pub use parameters::{default_parameters_location, Parameters};
pub use piece::{move_dir_table, ray_offsets, single_offset, MoveOffset, OwnedPiece, Piece};
pub use player::Player;
pub use rules::{
    attacked, attacks, board_after, board_condition, exists_legal_move, has_enemy, has_friendly,
    in_check, is_empty_at, legal_move, move_allowed, movement_ok, pseudo_legal, BoardCondition,
};
pub use rules::{
    any_legal_from, bishop_line, king_step, knight_jump, moved_occupant, off_abs, off_sign,
    path_clear, pawn_dir, pawn_move, pawn_start_rank, piece_geometry, promotion_rank, ray_len,
    ray_step_empty, rook_line,
};
pub use rules::{
    lemma_candidates_on_board, lemma_king_never_captured, lemma_legal_move_keeps_king_safe,
    lemma_slider_blocking,
};
pub use square::Square;
