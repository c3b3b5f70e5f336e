use chess_logic::{Board, BoardIter, MoveDescriptor, OwnedPiece, Piece, Player, Square};

fn descriptor(f0: u8, r0: u8, f1: u8, r1: u8) -> MoveDescriptor {
    MoveDescriptor::new(Square::new(f0, r0), Square::new(f1, r1)).unwrap()
}

#[test]
fn empty_board_has_no_pieces() {
    let b = Board::empty();
    for rank in 0..8u8 {
        for file in 0..8u8 {
            assert_eq!(b.get(Square::new(file, rank)), None);
        }
    }
}

#[test]
fn initial_layout_is_standard() {
    let b = Board::new();
    let back = [
        Piece::Rook,
        Piece::Knight,
        Piece::Bishop,
        Piece::Queen,
        Piece::King,
        Piece::Bishop,
        Piece::Knight,
        Piece::Rook,
    ];
    for file in 0..8u8 {
        assert_eq!(
            b.get(Square::new(file, 0)),
            Some(OwnedPiece { player: Player::White, piece: back[file as usize] })
        );
        assert_eq!(
            b.get(Square::new(file, 1)),
            Some(OwnedPiece { player: Player::White, piece: Piece::Pawn })
        );
        assert_eq!(
            b.get(Square::new(file, 6)),
            Some(OwnedPiece { player: Player::Black, piece: Piece::Pawn })
        );
        assert_eq!(
            b.get(Square::new(file, 7)),
            Some(OwnedPiece { player: Player::Black, piece: back[file as usize] })
        );
        for rank in 2..6u8 {
            assert_eq!(b.get(Square::new(file, rank)), None);
        }
    }
}

#[test]
fn set_and_get_roundtrip() {
    let mut b = Board::empty();
    let sq = Square::new(3, 4);
    let piece = OwnedPiece::new(Player::Black, Piece::Knight);
    b.set(sq, Some(piece));
    assert_eq!(b.get(sq), Some(piece));
    assert_eq!(b.get(Square::new(4, 3)), None);
    b.set(sq, None);
    assert_eq!(b.get(sq), None);
}

#[test]
fn do_move_relocates_and_clears_origin() {
    let mut b = Board::new();
    b.do_move(descriptor(4, 1, 4, 3));
    assert_eq!(b.get(Square::new(4, 1)), None);
    assert_eq!(
        b.get(Square::new(4, 3)),
        Some(OwnedPiece { player: Player::White, piece: Piece::Pawn })
    );
}

#[test]
fn do_move_does_not_validate() {
    let mut b = Board::new();
    // A rook jump that the rules would refuse still relocates: the board
    // itself holds no rule knowledge.
    b.do_move(descriptor(0, 0, 0, 4));
    assert_eq!(b.get(Square::new(0, 0)), None);
    assert_eq!(
        b.get(Square::new(0, 4)),
        Some(OwnedPiece { player: Player::White, piece: Piece::Rook })
    );
}

#[test]
fn board_iter_goes_file_first_in_row_major_order() {
    let mut it = BoardIter::new();
    assert_eq!(it.next(), Some(Square::new(0, 0)));
    assert_eq!(it.next(), Some(Square::new(1, 0)));
    for _ in 2..8 {
        it.next();
    }
    assert_eq!(it.next(), Some(Square::new(0, 1)));
}

#[test]
fn board_iter_walks_all_squares_once() {
    let mut it = BoardIter::new();
    let mut seen = [false; 64];
    let mut count = 0usize;
    while let Some(sq) = it.next() {
        assert!(sq.in_bounds());
        let idx = sq.rank as usize * 8 + sq.file as usize;
        assert!(!seen[idx]);
        seen[idx] = true;
        count += 1;
    }
    assert_eq!(count, 64);
    assert_eq!(it.next(), None);
}
