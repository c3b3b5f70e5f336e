use vstd::prelude::*;

use crate::parameters::Parameters;
use crate::player::Player;

verus! {

/// A kind of chess piece.
#[derive(Clone, Copy, PartialEq, Eq, Structural, Debug)]
pub enum Piece {
    Pawn,
    Bishop,
    Knight,
    Rook,
    Queen,
    King,
}

impl Piece {
    /// The intrinsic point value of this piece kind under the given
    /// valuation weights. Used only for scoring, never for legality.
    pub fn value(&self, parameters: &Parameters) -> (v: u64)
        ensures
            v == match *self {
                Piece::Pawn => parameters.pawn_value,
                Piece::Bishop => parameters.bishop_value,
                Piece::Knight => parameters.knight_value,
                Piece::Rook => parameters.rook_value,
                Piece::Queen => parameters.queen_value,
                Piece::King => parameters.king_value,
            },
    {
        match self {
            Piece::Pawn => parameters.pawn_value,
            Piece::Bishop => parameters.bishop_value,
            Piece::Knight => parameters.knight_value,
            Piece::Rook => parameters.rook_value,
            Piece::Queen => parameters.queen_value,
            Piece::King => parameters.king_value,
        }
    }
}

/// A piece together with the side that owns it.
#[derive(Clone, Copy, PartialEq, Eq, Structural, Debug)]
pub struct OwnedPiece {
    pub player: Player,
    pub piece: Piece,
}

/// A coordinate offset from an origin square, in files and ranks.
#[derive(Clone, Copy, PartialEq, Eq, Structural, Debug)]
pub struct MoveOffset {
    pub df: i8,
    pub dr: i8,
}

/// A ray template: the seven squares outward in direction (`df`, `dr`),
/// nearest first.
pub open spec fn ray_offsets(df: int, dr: int) -> Seq<MoveOffset> {
    Seq::new(7, |i: int| MoveOffset { df: ((i + 1) * df) as i8, dr: ((i + 1) * dr) as i8 })
}

/// A template of a single fixed offset.
pub open spec fn single_offset(df: int, dr: int) -> Seq<MoveOffset> {
    seq![MoveOffset { df: df as i8, dr: dr as i8 }]
}

/// The movement templates of a piece: one inner sequence per direction,
/// each listing the candidate offsets outward in order. Sliders get four or
/// eight seven-step rays, steppers eight single offsets, pawns their
/// forward and two diagonal offsets for the side that owns them.
pub open spec fn move_dir_table(player: Player, piece: Piece) -> Seq<Seq<MoveOffset>> {
    match piece {
        Piece::Pawn => match player {
            Player::White => seq![single_offset(0, 1), single_offset(-1, 1), single_offset(1, 1)],
            Player::Black => seq![
                single_offset(0, -1),
                single_offset(-1, -1),
                single_offset(1, -1),
            ],
        },
        Piece::Bishop => seq![
            ray_offsets(1, 1),
            ray_offsets(-1, 1),
            ray_offsets(1, -1),
            ray_offsets(-1, -1),
        ],
        Piece::Rook => seq![
            ray_offsets(1, 0),
            ray_offsets(-1, 0),
            ray_offsets(0, 1),
            ray_offsets(0, -1),
        ],
        Piece::Knight => seq![
            single_offset(2, 1),
            single_offset(-2, 1),
            single_offset(2, -1),
            single_offset(-2, -1),
            single_offset(1, 2),
            single_offset(-1, 2),
            single_offset(1, -2),
            single_offset(-1, -2),
        ],
        Piece::Queen => seq![
            ray_offsets(1, 1),
            ray_offsets(-1, 1),
            ray_offsets(1, -1),
            ray_offsets(-1, -1),
            ray_offsets(1, 0),
            ray_offsets(-1, 0),
            ray_offsets(0, 1),
            ray_offsets(0, -1),
        ],
        Piece::King => seq![
            single_offset(0, 1),
            single_offset(1, 1),
            single_offset(1, 0),
            single_offset(1, -1),
            single_offset(0, -1),
            single_offset(-1, -1),
            single_offset(-1, 0),
            single_offset(-1, 1),
        ],
    }
}

impl OwnedPiece {
    pub fn new(player: Player, piece: Piece) -> (p: Self)
        ensures
            p == (OwnedPiece { player, piece }),
    {
        Self { player, piece }
    }

    /// The movement templates of this piece, one inner vector per
    /// direction: exactly the table that `move_dir_table` describes.
    pub fn possible_move_dirs(&self) -> (dirs: Vec<Vec<MoveOffset>>)
        ensures
            dirs@.len() == move_dir_table(self.player, self.piece).len(),
            forall|i: int| 0 <= i < dirs@.len()
                ==> (#[trigger] dirs@[i])@ == move_dir_table(self.player, self.piece)[i],
    {
        let mut dirs: Vec<Vec<MoveOffset>> = Vec::new();
        match self.piece {
            Piece::Pawn => {
                let dir: i8 = match self.player {
                    Player::White => 1,
                    Player::Black => -1,
                };
                dirs.push(step_vec(0, dir));
                dirs.push(step_vec(-1, dir));
                dirs.push(step_vec(1, dir));
            },
            Piece::Bishop => {
                dirs.push(ray_vec(1, 1));
                dirs.push(ray_vec(-1, 1));
                dirs.push(ray_vec(1, -1));
                dirs.push(ray_vec(-1, -1));
            },
            Piece::Rook => {
                dirs.push(ray_vec(1, 0));
                dirs.push(ray_vec(-1, 0));
                dirs.push(ray_vec(0, 1));
                dirs.push(ray_vec(0, -1));
            },
            Piece::Knight => {
                dirs.push(step_vec(2, 1));
                dirs.push(step_vec(-2, 1));
                dirs.push(step_vec(2, -1));
                dirs.push(step_vec(-2, -1));
                dirs.push(step_vec(1, 2));
                dirs.push(step_vec(-1, 2));
                dirs.push(step_vec(1, -2));
                dirs.push(step_vec(-1, -2));
            },
            Piece::Queen => {
                dirs.push(ray_vec(1, 1));
                dirs.push(ray_vec(-1, 1));
                dirs.push(ray_vec(1, -1));
                dirs.push(ray_vec(-1, -1));
                dirs.push(ray_vec(1, 0));
                dirs.push(ray_vec(-1, 0));
                dirs.push(ray_vec(0, 1));
                dirs.push(ray_vec(0, -1));
            },
            Piece::King => {
                dirs.push(step_vec(0, 1));
                dirs.push(step_vec(1, 1));
                dirs.push(step_vec(1, 0));
                dirs.push(step_vec(1, -1));
                dirs.push(step_vec(0, -1));
                dirs.push(step_vec(-1, -1));
                dirs.push(step_vec(-1, 0));
                dirs.push(step_vec(-1, 1));
            },
        }
        dirs
    }
}

/// A one-element template holding the single offset (`df`, `dr`).
fn step_vec(df: i8, dr: i8) -> (v: Vec<MoveOffset>)
    ensures
        v@ == single_offset(df as int, dr as int),
{
    let mut v: Vec<MoveOffset> = Vec::new();
    v.push(MoveOffset { df, dr });
    proof {
        assert(v@ =~= single_offset(df as int, dr as int));
    }
    v
}

/// The seven-step ray template in direction (`df`, `dr`).
fn ray_vec(df: i8, dr: i8) -> (v: Vec<MoveOffset>)
    requires
        -1 <= df <= 1,
        -1 <= dr <= 1,
    ensures
        v@ == ray_offsets(df as int, dr as int),
{
    let mut v: Vec<MoveOffset> = Vec::new();
    let mut k: i8 = 1;
    while k <= 7
        invariant
            -1 <= df <= 1,
            -1 <= dr <= 1,
            1 <= k <= 8,
            v@.len() == k as int - 1,
            forall|i: int| 0 <= i < v@.len()
                ==> #[trigger] v@[i] == (MoveOffset {
                    df: ((i + 1) * df as int) as i8,
                    dr: ((i + 1) * dr as int) as i8,
                }),
        decreases 8 - k as int,
    {
        proof {
            assert(-7 <= k as int * df as int <= 7) by (nonlinear_arith)
                requires 1 <= k <= 7 && -1 <= df <= 1;
            assert(-7 <= k as int * dr as int <= 7) by (nonlinear_arith)
                requires 1 <= k <= 7 && -1 <= dr <= 1;
        }
        v.push(MoveOffset { df: k * df, dr: k * dr });
        k = k + 1;
    }
    proof {
        assert(v@ =~= ray_offsets(df as int, dr as int));
    }
    v
}

} // verus!
