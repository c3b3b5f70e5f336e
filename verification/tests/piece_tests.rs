use chess_logic::{
    default_parameters_location, MoveOffset, OwnedPiece, Parameters, Piece, Player,
};

fn offsets(dirs: &[Vec<MoveOffset>]) -> Vec<Vec<(i8, i8)>> {
    dirs.iter()
        .map(|ray| ray.iter().map(|o| (o.df, o.dr)).collect())
        .collect()
}

#[test]
fn default_parameters_hold_the_classical_values() {
    let p = Parameters::default();
    assert_eq!(p.pawn_value, 1);
    assert_eq!(p.bishop_value, 3);
    assert_eq!(p.knight_value, 3);
    assert_eq!(p.rook_value, 5);
    assert_eq!(p.queen_value, 9);
    assert_eq!(p.king_value, u64::MAX);
}

#[test]
fn piece_values_follow_the_parameters() {
    let p = Parameters::default();
    assert_eq!(Piece::Pawn.value(&p), 1);
    assert_eq!(Piece::Bishop.value(&p), 3);
    assert_eq!(Piece::Knight.value(&p), 3);
    assert_eq!(Piece::Rook.value(&p), 5);
    assert_eq!(Piece::Queen.value(&p), 9);
    assert_eq!(Piece::King.value(&p), u64::MAX);
    let custom = Parameters { queen_value: 11, ..p };
    assert_eq!(Piece::Queen.value(&custom), 11);
}

#[test]
fn parameters_location_is_a_local_toml_file() {
    assert_eq!(default_parameters_location(), "./parameters.toml");
}

#[test]
fn pawn_dirs_depend_on_the_player() {
    let white = OwnedPiece::new(Player::White, Piece::Pawn).possible_move_dirs();
    assert_eq!(offsets(&white), vec![vec![(0, 1)], vec![(-1, 1)], vec![(1, 1)]]);
    let black = OwnedPiece::new(Player::Black, Piece::Pawn).possible_move_dirs();
    assert_eq!(offsets(&black), vec![vec![(0, -1)], vec![(-1, -1)], vec![(1, -1)]]);
}

#[test]
fn knight_dirs_are_eight_single_jumps() {
    let dirs = OwnedPiece::new(Player::White, Piece::Knight).possible_move_dirs();
    let got = offsets(&dirs);
    assert_eq!(got.len(), 8);
    for ray in &got {
        assert_eq!(ray.len(), 1);
        let (df, dr) = ray[0];
        assert_eq!(df.abs() * dr.abs(), 2);
    }
}

#[test]
fn rook_dirs_are_four_full_rays() {
    let dirs = OwnedPiece::new(Player::Black, Piece::Rook).possible_move_dirs();
    let got = offsets(&dirs);
    assert_eq!(
        got[0],
        vec![(1, 0), (2, 0), (3, 0), (4, 0), (5, 0), (6, 0), (7, 0)]
    );
    assert_eq!(got.len(), 4);
    for ray in &got {
        assert_eq!(ray.len(), 7);
    }
}

#[test]
fn bishop_dirs_are_four_diagonal_rays() {
    let dirs = OwnedPiece::new(Player::White, Piece::Bishop).possible_move_dirs();
    let got = offsets(&dirs);
    assert_eq!(
        got[0],
        vec![(1, 1), (2, 2), (3, 3), (4, 4), (5, 5), (6, 6), (7, 7)]
    );
    assert_eq!(got.len(), 4);
}

#[test]
fn queen_dirs_cover_all_eight_directions() {
    let dirs = OwnedPiece::new(Player::White, Piece::Queen).possible_move_dirs();
    let got = offsets(&dirs);
    assert_eq!(got.len(), 8);
    for ray in &got {
        assert_eq!(ray.len(), 7);
    }
}

#[test]
fn king_dirs_are_the_eight_neighbours() {
    let dirs = OwnedPiece::new(Player::White, Piece::King).possible_move_dirs();
    let mut got: Vec<(i8, i8)> = offsets(&dirs).iter().map(|ray| ray[0]).collect();
    got.sort();
    assert_eq!(
        got,
        vec![(-1, -1), (-1, 0), (-1, 1), (0, -1), (0, 1), (1, -1), (1, 0), (1, 1)]
    );
}
