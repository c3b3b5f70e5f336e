use vstd::prelude::*;

use crate::piece::{OwnedPiece, Piece};
use crate::player::Player;
use crate::square::Square;

verus! {

/// The number of files and of ranks of the board.
pub const BOARD_SIZE: u8 = 8;

/// Whether the coordinate pair lies on the 8x8 board.
pub open spec fn on_board(f: int, r: int) -> bool {
    0 <= f < 8 && 0 <= r < 8
}

/// The position of a coordinate pair in the row-major square sequence.
pub open spec fn sq_index(f: int, r: int) -> int {
    r * 8 + f
}

/// The occupant of the square at file `f`, rank `r` of board `b`.
pub open spec fn occ(b: Seq<Option<OwnedPiece>>, f: int, r: int) -> Option<OwnedPiece> {
    b[sq_index(f, r)]
}

/// The back-row piece kind standing on file `f` in the standard starting
/// layout: rook, knight, bishop, queen, king, bishop, knight, rook.
pub open spec fn back_row_piece(f: int) -> Piece {
    if f == 0 || f == 7 {
        Piece::Rook
    } else if f == 1 || f == 6 {
        Piece::Knight
    } else if f == 2 || f == 5 {
        Piece::Bishop
    } else if f == 3 {
        Piece::Queen
    } else {
        Piece::King
    }
}

/// The occupant of file `f`, rank `r` in the standard starting layout:
/// White's back row on rank 0 and pawns on rank 1, Black's pawns on rank 6
/// and back row on rank 7.
pub open spec fn initial_piece(f: int, r: int) -> Option<OwnedPiece> {
    if r == 0 {
        Some(OwnedPiece { player: Player::White, piece: back_row_piece(f) })
    } else if r == 1 {
        Some(OwnedPiece { player: Player::White, piece: Piece::Pawn })
    } else if r == 6 {
        Some(OwnedPiece { player: Player::Black, piece: Piece::Pawn })
    } else if r == 7 {
        Some(OwnedPiece { player: Player::Black, piece: back_row_piece(f) })
    } else {
        None
    }
}

/// The standard starting position as a square sequence.
pub open spec fn initial_board() -> Seq<Option<OwnedPiece>> {
    Seq::new(64, |i: int| initial_piece(i % 8, i / 8))
}

/// Law: the standard starting position holds exactly one king per side,
/// White's at file 4 of rank 0 and Black's at file 4 of rank 7.
pub proof fn lemma_initial_board_kings()
    ensures
        occ(initial_board(), 4, 0) == Some(
            OwnedPiece { player: Player::White, piece: Piece::King },
        ),
        occ(initial_board(), 4, 7) == Some(
            OwnedPiece { player: Player::Black, piece: Piece::King },
        ),
        forall|f: int, r: int|
            on_board(f, r) && #[trigger] occ(initial_board(), f, r) == Some(
                OwnedPiece { player: Player::White, piece: Piece::King },
            ) ==> f == 4 && r == 0,
        forall|f: int, r: int|
            on_board(f, r) && #[trigger] occ(initial_board(), f, r) == Some(
                OwnedPiece { player: Player::Black, piece: Piece::King },
            ) ==> f == 4 && r == 7,
{
    assert forall|f: int, r: int| on_board(f, r) implies #[trigger] occ(initial_board(), f, r)
        == initial_piece(f, r) by {
        lemma_sq_index_decomposes(f, r);
    }
}

/// The row-major index of an on-board square decomposes back into its file
/// and rank.
proof fn lemma_sq_index_decomposes(f: int, r: int)
    requires
        on_board(f, r),
    ensures
        sq_index(f, r) % 8 == f,
        sq_index(f, r) / 8 == r,
        0 <= sq_index(f, r) < 64,
{
    assert((r * 8 + f) % 8 == f && (r * 8 + f) / 8 == r) by (nonlinear_arith)
        requires 0 <= f < 8 && 0 <= r < 8;
}

/// Piece placement on the 64 squares: pure storage and spatial query, with
/// no rule knowledge. The type is `Copy`, so hypothetical moves can be tried
/// on a cheap snapshot.
#[derive(Clone, Copy, Debug)]
pub struct Board {
    pieces: [Option<OwnedPiece>; 64],
}

impl View for Board {
    type V = Seq<Option<OwnedPiece>>;

    closed spec fn view(&self) -> Seq<Option<OwnedPiece>> {
        self.pieces@
    }
}

impl Board {
    /// A board with every square empty.
    pub fn empty() -> (b: Self)
        ensures
            b@.len() == 64,
            forall|i: int| 0 <= i < 64 ==> b@[i] is None,
    {
        Self { pieces: [None; 64] }
    }

    /// The occupant of `sq`, or `None` for an empty square.
    pub fn get(&self, sq: Square) -> (r: Option<OwnedPiece>)
        requires
            sq.in_bounds(),
        ensures
            r == occ(self@, sq.file as int, sq.rank as int),
    {
        self.pieces[(sq.rank as usize) * 8 + (sq.file as usize)]
    }

    /// Sets or clears the occupant of `sq`; no other square changes.
    pub fn set(&mut self, sq: Square, p: Option<OwnedPiece>)
        requires
            sq.in_bounds(),
        ensures
            final(self)@ == old(self)@.update(sq_index(sq.file as int, sq.rank as int), p),
    {
        self.pieces[(sq.rank as usize) * 8 + (sq.file as usize)] = p;
    }

    /// The standard starting position.
    pub fn new() -> (b: Self)
        ensures
            b@ == initial_board(),
    {
        let mut b = Self::empty();
        let mut rank: u8 = 0;
        while rank < 8
            invariant
                rank <= 8,
                b@.len() == 64,
                forall|i: int| 0 <= i < rank as int * 8 ==> b@[i] == initial_piece(i % 8, i / 8),
                forall|i: int| rank as int * 8 <= i < 64 ==> b@[i] is None,
            decreases 8 - rank as int,
        {
            let mut file: u8 = 0;
            while file < 8
                invariant
                    rank < 8,
                    file <= 8,
                    b@.len() == 64,
                    forall|i: int| 0 <= i < rank as int * 8 + file as int
                        ==> b@[i] == initial_piece(i % 8, i / 8),
                    forall|i: int| rank as int * 8 + file as int <= i < 64 ==> b@[i] is None,
                decreases 8 - file as int,
            {
                let p = initial_piece_at(file, rank);
                b.set(Square { file, rank }, p);
                file = file + 1;
            }
            rank = rank + 1;
        }
        assert(b@ =~= initial_board());
        b
    }

    /// Relocates the occupant of the origin square to the destination and
    /// clears the origin. Used only by validated moves: the board itself
    /// does not validate.
    pub fn do_move(&mut self, move_command: crate::move_descriptor::MoveDescriptor)
        ensures
            ({
                let from_i = sq_index(
                    move_command.spec_from().file as int,
                    move_command.spec_from().rank as int,
                );
                let to_i = sq_index(
                    move_command.spec_to().file as int,
                    move_command.spec_to().rank as int,
                );
                final(self)@ == old(self)@.update(to_i, old(self)@[from_i]).update(from_i, None)
            }),
    {
        let from = move_command.from();
        let to = move_command.to();
        let moved = self.get(from);
        self.set(to, moved);
        self.set(from, None);
    }
}

/// The occupant of file `file`, rank `rank` in the standard starting layout.
fn initial_piece_at(file: u8, rank: u8) -> (r: Option<OwnedPiece>)
    requires
        file < 8,
        rank < 8,
    ensures
        r == initial_piece(file as int, rank as int),
{
    if rank == 0 || rank == 7 {
        let player = if rank == 0 { Player::White } else { Player::Black };
        let piece = if file == 0 || file == 7 {
            Piece::Rook
        } else if file == 1 || file == 6 {
            Piece::Knight
        } else if file == 2 || file == 5 {
            Piece::Bishop
        } else if file == 3 {
            Piece::Queen
        } else {
            Piece::King
        };
        Some(OwnedPiece { player, piece })
    } else if rank == 1 {
        Some(OwnedPiece { player: Player::White, piece: Piece::Pawn })
    } else if rank == 6 {
        Some(OwnedPiece { player: Player::Black, piece: Piece::Pawn })
    } else {
        None
    }
}

/// Walks the 64 squares in row-major order, rank by rank; a replacement for
/// an iterator that yields each square once.
pub struct BoardIter {
    next_index: u8,
}

impl BoardIter {
    /// How many squares have been handed out so far.
    pub closed spec fn spec_pos(self) -> int {
        self.next_index as int
    }

    pub fn new() -> (it: Self)
        ensures
            it.spec_pos() == 0,
    {
        Self { next_index: 0 }
    }

    /// The next square in row-major order, or `None` after all 64.
    pub fn next(&mut self) -> (r: Option<Square>)
        ensures
            old(self).spec_pos() < 64 ==> {
                &&& final(self).spec_pos() == old(self).spec_pos() + 1
                &&& r matches Some(sq) && sq.in_bounds()
                &&& r matches Some(sq)
                    && sq_index(sq.file as int, sq.rank as int) == old(self).spec_pos()
            },
            old(self).spec_pos() >= 64 ==> r is None && final(self).spec_pos() == old(self).spec_pos(),
    {
        if self.next_index < 64 {
            let sq = Square { file: self.next_index % 8, rank: self.next_index / 8 };
            self.next_index = self.next_index + 1;
            Some(sq)
        } else {
            None
        }
    }
}

} // verus!
