use chess_logic::{
    Board, BoardCondition, GameState, GameStatus, MoveDescriptor, MoveError, OwnedPiece, Piece,
    Player, Square, StateUpdate,
};

fn sq(file: u8, rank: u8) -> Square {
    Square::new(file, rank)
}

fn descriptor(f0: u8, r0: u8, f1: u8, r1: u8) -> MoveDescriptor {
    MoveDescriptor::new(sq(f0, r0), sq(f1, r1)).unwrap()
}

fn put(b: &mut Board, file: u8, rank: u8, player: Player, piece: Piece) {
    b.set(sq(file, rank), Some(OwnedPiece { player, piece }));
}

fn count_legal_moves(g: &GameState, p: Player) -> usize {
    let b = g.board();
    let mut n = 0usize;
    for rank in 0..8u8 {
        for file in 0..8u8 {
            if let Some(q) = b.get(sq(file, rank)) {
                if q.player == p {
                    n += b.legal_destinations(sq(file, rank)).len();
                }
            }
        }
    }
    n
}

fn snapshot(g: &GameState) -> Vec<Option<OwnedPiece>> {
    let mut v = Vec::new();
    for rank in 0..8u8 {
        for file in 0..8u8 {
            v.push(g.board().get(sq(file, rank)));
        }
    }
    v
}

#[test]
fn white_has_twenty_opening_moves() {
    let g = GameState::new(Player::White);
    assert_eq!(count_legal_moves(&g, Player::White), 20);
}

#[test]
fn black_has_twenty_replies_after_the_first_move() {
    let mut g = GameState::new(Player::White);
    assert_eq!(g.play(descriptor(4, 1, 4, 3)), StateUpdate::Continue);
    assert_eq!(count_legal_moves(&g, Player::Black), 20);
}

#[test]
fn accepted_move_flips_the_turn() {
    let mut g = GameState::new(Player::White);
    assert_eq!(g.turn(), Player::White);
    assert_eq!(g.play(descriptor(4, 1, 4, 3)), StateUpdate::Continue);
    assert_eq!(g.turn(), Player::Black);
    assert_eq!(g.play(descriptor(4, 6, 4, 4)), StateUpdate::Continue);
    assert_eq!(g.turn(), Player::White);
}

#[test]
fn rejected_move_changes_nothing() {
    let mut g = GameState::new(Player::White);
    let before = snapshot(&g);
    // A pawn cannot advance three squares.
    assert_eq!(g.play(descriptor(4, 1, 4, 4)), StateUpdate::InvalidMove);
    assert_eq!(snapshot(&g), before);
    assert_eq!(g.turn(), Player::White);
    assert_eq!(g.status(), GameStatus::InProgress);
}

#[test]
fn validate_move_reports_each_error_kind() {
    let mut g = GameState::new(Player::White);
    // Empty origin square.
    assert_eq!(
        g.validate_move(descriptor(4, 3, 4, 4)),
        Err(MoveError::NoPieceAtOrigin)
    );
    // Black piece while White is on turn.
    assert_eq!(
        g.validate_move(descriptor(4, 6, 4, 5)),
        Err(MoveError::WrongPlayersPiece)
    );
    // Geometry refused.
    assert_eq!(
        g.validate_move(descriptor(4, 1, 4, 4)),
        Err(MoveError::IllegalMove)
    );
    // A proper opening move passes.
    assert_eq!(g.validate_move(descriptor(4, 1, 4, 3)), Ok(()));
    // After a terminal outcome everything is refused.
    assert_eq!(g.play(descriptor(5, 1, 5, 2)), StateUpdate::Continue);
    assert_eq!(g.play(descriptor(4, 6, 4, 4)), StateUpdate::Continue);
    assert_eq!(g.play(descriptor(6, 1, 6, 3)), StateUpdate::Continue);
    assert_eq!(g.play(descriptor(3, 7, 7, 3)), StateUpdate::Win(Player::Black));
    assert_eq!(
        g.validate_move(descriptor(0, 1, 0, 2)),
        Err(MoveError::GameOver)
    );
}

#[test]
fn fools_mate_wins_for_black() {
    let mut g = GameState::new(Player::White);
    assert_eq!(g.play(descriptor(5, 1, 5, 2)), StateUpdate::Continue); // f3
    assert_eq!(g.play(descriptor(4, 6, 4, 4)), StateUpdate::Continue); // e5
    assert_eq!(g.play(descriptor(6, 1, 6, 3)), StateUpdate::Continue); // g4
    assert_eq!(g.play(descriptor(3, 7, 7, 3)), StateUpdate::Win(Player::Black)); // Qh4#
    assert_eq!(g.status(), GameStatus::Won(Player::Black));
    // The state is immutable once won.
    let before = snapshot(&g);
    assert_eq!(g.play(descriptor(0, 1, 0, 2)), StateUpdate::InvalidMove);
    assert_eq!(snapshot(&g), before);
}

#[test]
fn checkmate_position_evaluates_to_a_win() {
    let mut g = GameState::new(Player::White);
    g.play(descriptor(5, 1, 5, 2));
    g.play(descriptor(4, 6, 4, 4));
    g.play(descriptor(6, 1, 6, 3));
    g.play(descriptor(3, 7, 7, 3));
    assert_eq!(
        g.board().evaluate_bord(Player::White),
        BoardCondition::Win(Player::Black)
    );
}

#[test]
fn back_rank_mate_wins_for_white() {
    let mut b = Board::empty();
    put(&mut b, 6, 7, Player::Black, Piece::King);
    put(&mut b, 5, 6, Player::Black, Piece::Pawn);
    put(&mut b, 6, 6, Player::Black, Piece::Pawn);
    put(&mut b, 7, 6, Player::Black, Piece::Pawn);
    put(&mut b, 0, 0, Player::White, Piece::Rook);
    put(&mut b, 4, 0, Player::White, Piece::King);
    let mut g = GameState::from_position(b, Player::White);
    assert_eq!(g.play(descriptor(0, 0, 0, 7)), StateUpdate::Win(Player::White));
    assert_eq!(g.status(), GameStatus::Won(Player::White));
}

#[test]
fn stalemate_yields_drawn() {
    let mut b = Board::empty();
    put(&mut b, 0, 7, Player::Black, Piece::King);
    put(&mut b, 1, 5, Player::White, Piece::King);
    put(&mut b, 2, 1, Player::White, Piece::Queen);
    let mut g = GameState::from_position(b, Player::White);
    // Qc2-c7: Black's king on a8 is not attacked but has nowhere to go.
    assert_eq!(g.play(descriptor(2, 1, 2, 6)), StateUpdate::Draw);
    assert_eq!(g.status(), GameStatus::Drawn);
}

#[test]
fn stalemate_position_evaluates_to_a_draw() {
    let mut b = Board::empty();
    put(&mut b, 0, 7, Player::Black, Piece::King);
    put(&mut b, 1, 5, Player::White, Piece::King);
    put(&mut b, 2, 6, Player::White, Piece::Queen);
    assert!(!b.in_check(Player::Black));
    assert_eq!(b.evaluate_bord(Player::Black), BoardCondition::Draw);
}

#[test]
fn pinned_piece_may_not_expose_its_king() {
    let mut b = Board::empty();
    put(&mut b, 4, 0, Player::White, Piece::King);
    put(&mut b, 4, 2, Player::White, Piece::Rook);
    put(&mut b, 4, 7, Player::Black, Piece::Rook);
    put(&mut b, 0, 7, Player::Black, Piece::King);
    let mut g = GameState::from_position(b, Player::White);
    // Moving the pinned rook off the file would leave the king attacked.
    assert_eq!(g.play(descriptor(4, 2, 3, 2)), StateUpdate::InvalidMove);
    // Moving it along the pin is fine.
    assert_eq!(g.play(descriptor(4, 2, 4, 5)), StateUpdate::Continue);
}

#[test]
fn no_legal_move_leaves_own_king_attacked() {
    // Every move the engine accepts from the starting position of the pin
    // scenario keeps the mover's king out of check afterward.
    let mut b = Board::empty();
    put(&mut b, 4, 0, Player::White, Piece::King);
    put(&mut b, 4, 2, Player::White, Piece::Rook);
    put(&mut b, 4, 7, Player::Black, Piece::Rook);
    put(&mut b, 0, 7, Player::Black, Piece::King);
    for rank in 0..8u8 {
        for file in 0..8u8 {
            let from = sq(file, rank);
            match b.get(from) {
                Some(q) if q.player == Player::White => {
                    for to in b.legal_destinations(from) {
                        let after = b.after_move(from, to);
                        assert!(!after.in_check(Player::White));
                    }
                }
                _ => {}
            }
        }
    }
}

#[test]
fn pawn_reaching_the_last_rank_promotes_to_queen() {
    let mut b = Board::empty();
    put(&mut b, 0, 6, Player::White, Piece::Pawn);
    put(&mut b, 4, 0, Player::White, Piece::King);
    put(&mut b, 4, 6, Player::Black, Piece::King);
    let mut g = GameState::from_position(b, Player::White);
    assert_eq!(g.play(descriptor(0, 6, 0, 7)), StateUpdate::Continue);
    assert_eq!(
        g.board().get(sq(0, 7)),
        Some(OwnedPiece { player: Player::White, piece: Piece::Queen })
    );
}

#[test]
fn castling_is_not_part_of_this_engine() {
    let mut b = Board::empty();
    put(&mut b, 4, 0, Player::White, Piece::King);
    put(&mut b, 7, 0, Player::White, Piece::Rook);
    put(&mut b, 4, 7, Player::Black, Piece::King);
    let mut g = GameState::from_position(b, Player::White);
    // The two-square king move of a castle is refused.
    assert_eq!(g.play(descriptor(4, 0, 6, 0)), StateUpdate::InvalidMove);
}

#[test]
fn en_passant_is_not_part_of_this_engine() {
    let mut b = Board::empty();
    put(&mut b, 4, 0, Player::White, Piece::King);
    put(&mut b, 4, 7, Player::Black, Piece::King);
    put(&mut b, 3, 4, Player::White, Piece::Pawn);
    put(&mut b, 4, 6, Player::Black, Piece::Pawn);
    let mut g = GameState::from_position(b, Player::Black);
    assert_eq!(g.play(descriptor(4, 6, 4, 4)), StateUpdate::Continue);
    // The diagonal square behind the double-stepped pawn stays off-limits.
    assert_eq!(g.play(descriptor(3, 4, 4, 5)), StateUpdate::InvalidMove);
}

#[test]
fn check_must_be_answered() {
    let mut b = Board::empty();
    put(&mut b, 4, 0, Player::White, Piece::King);
    put(&mut b, 4, 7, Player::Black, Piece::Rook);
    put(&mut b, 0, 7, Player::Black, Piece::King);
    put(&mut b, 0, 1, Player::White, Piece::Pawn);
    let mut g = GameState::from_position(b, Player::White);
    assert!(g.board().in_check(Player::White));
    // A move that ignores the check is refused; stepping aside is legal.
    assert_eq!(g.play(descriptor(0, 1, 0, 2)), StateUpdate::InvalidMove);
    assert_eq!(g.play(descriptor(4, 0, 3, 0)), StateUpdate::Continue);
}

#[test]
fn game_starts_in_progress_with_chosen_player() {
    let g = GameState::new(Player::Black);
    assert_eq!(g.turn(), Player::Black);
    assert_eq!(g.status(), GameStatus::InProgress);
    assert_eq!(
        g.board().get(sq(4, 0)),
        Some(OwnedPiece { player: Player::White, piece: Piece::King })
    );
}

#[test]
fn is_move_valid_checks_the_owner_of_the_origin() {
    let b = Board::new();
    assert!(b.is_move_valid(descriptor(4, 1, 4, 3)));
    assert!(b.is_move_valid(descriptor(4, 6, 4, 4)));
    assert!(!b.is_move_valid(descriptor(4, 1, 4, 4)));
    assert!(!b.is_move_valid(descriptor(4, 3, 4, 4)));
}

#[test]
fn evaluate_bord_continues_at_the_start() {
    let b = Board::new();
    assert_eq!(b.evaluate_bord(Player::White), BoardCondition::Continue);
    assert_eq!(b.evaluate_bord(Player::Black), BoardCondition::Continue);
}
