use vstd::prelude::*;

use crate::board::{occ, on_board, sq_index, Board};
use crate::piece::{OwnedPiece, Piece};
use crate::player::Player;
use crate::square::Square;

verus! {

/// The absolute value of a coordinate offset.
pub open spec fn off_abs(x: int) -> int {
    if x >= 0 {
        x
    } else {
        -x
    }
}

/// The sign of a coordinate offset: -1, 0 or 1.
pub open spec fn off_sign(x: int) -> int {
    if x > 0 {
        1
    } else if x < 0 {
        -1
    } else {
        0
    }
}

/// Whether the square at (`f`, `r`) is empty.
pub open spec fn is_empty_at(b: Seq<Option<OwnedPiece>>, f: int, r: int) -> bool {
    occ(b, f, r) is None
}

/// Whether a piece of `p`'s own side stands at (`f`, `r`).
pub open spec fn has_friendly(b: Seq<Option<OwnedPiece>>, p: Player, f: int, r: int) -> bool {
    occ(b, f, r) matches Some(q) && q.player == p
}

/// Whether a piece of the side opposing `p` stands at (`f`, `r`).
pub open spec fn has_enemy(b: Seq<Option<OwnedPiece>>, p: Player, f: int, r: int) -> bool {
    occ(b, f, r) matches Some(q) && q.player == p.spec_other()
}

/// Whether the offset runs along a row or a column, the rook's lines.
pub open spec fn rook_line(df: int, dr: int) -> bool {
    (df == 0 || dr == 0) && (df != 0 || dr != 0)
}

/// Whether the offset runs along a diagonal, the bishop's lines.
pub open spec fn bishop_line(df: int, dr: int) -> bool {
    df != 0 && off_abs(df) == off_abs(dr)
}

/// How many unit steps a straight or diagonal offset spans.
pub open spec fn ray_len(df: int, dr: int) -> int {
    if off_abs(df) >= off_abs(dr) {
        off_abs(df)
    } else {
        off_abs(dr)
    }
}

/// Whether the square `j` unit steps out from (`f0`, `r0`) along the
/// direction of the offset (`df`, `dr`) is empty.
pub open spec fn ray_step_empty(
    b: Seq<Option<OwnedPiece>>,
    f0: int,
    r0: int,
    df: int,
    dr: int,
    j: int,
) -> bool {
    is_empty_at(b, f0 + j * off_sign(df), r0 + j * off_sign(dr))
}

/// Whether every square strictly between the origin and the destination of
/// a straight or diagonal move is empty.
pub open spec fn path_clear(b: Seq<Option<OwnedPiece>>, f0: int, r0: int, f1: int, r1: int) -> bool {
    forall|j: int|
        1 <= j < ray_len(f1 - f0, r1 - r0) ==> #[trigger] ray_step_empty(
            b,
            f0,
            r0,
            f1 - f0,
            r1 - r0,
            j,
        )
}

/// The knight's jump offsets.
pub open spec fn knight_jump(df: int, dr: int) -> bool {
    (off_abs(df) == 2 && off_abs(dr) == 1) || (off_abs(df) == 1 && off_abs(dr) == 2)
}

/// The king's single-step offsets.
pub open spec fn king_step(df: int, dr: int) -> bool {
    (df != 0 || dr != 0) && off_abs(df) <= 1 && off_abs(dr) <= 1
}

/// The direction a pawn of `p` advances in: White toward increasing ranks,
/// Black toward decreasing ones.
pub open spec fn pawn_dir(p: Player) -> int {
    if p is White {
        1
    } else {
        -1
    }
}

/// The rank a pawn of `p` starts on.
pub open spec fn pawn_start_rank(p: Player) -> int {
    if p is White {
        1
    } else {
        6
    }
}

/// The farthest rank for a pawn of `p`; reaching it promotes the pawn.
pub open spec fn promotion_rank(p: Player) -> int {
    if p is White {
        7
    } else {
        0
    }
}

/// A pawn move for side `p` from (`f0`, `r0`) to (`f1`, `r1`): a single
/// forward step onto an empty square; a double step from the starting rank
/// with both squares ahead empty; or a diagonal step that captures an enemy
/// piece. A diagonal step to a square without an enemy piece is never a
/// pawn move.
pub open spec fn pawn_move(
    b: Seq<Option<OwnedPiece>>,
    p: Player,
    f0: int,
    r0: int,
    f1: int,
    r1: int,
) -> bool {
    ||| (f1 == f0 && r1 == r0 + pawn_dir(p) && is_empty_at(b, f1, r1))
    ||| (f1 == f0 && r1 == r0 + 2 * pawn_dir(p) && r0 == pawn_start_rank(p) && is_empty_at(
        b,
        f0,
        r0 + pawn_dir(p),
    ) && is_empty_at(b, f1, r1))
    ||| (off_abs(f1 - f0) == 1 && r1 == r0 + pawn_dir(p) && has_enemy(b, p, f1, r1))
}

/// The movement geometry of a piece of kind `k` owned by `p`, for squares
/// already known to be on the board: sliders walk a clear line and may not
/// land on a friendly piece, steppers use their fixed offsets, pawns follow
/// `pawn_move`.
pub open spec fn piece_geometry(
    b: Seq<Option<OwnedPiece>>,
    p: Player,
    k: Piece,
    f0: int,
    r0: int,
    f1: int,
    r1: int,
) -> bool {
    match k {
        Piece::Pawn => pawn_move(b, p, f0, r0, f1, r1),
        Piece::Knight => knight_jump(f1 - f0, r1 - r0) && !has_friendly(b, p, f1, r1),
        Piece::King => king_step(f1 - f0, r1 - r0) && !has_friendly(b, p, f1, r1),
        Piece::Rook => rook_line(f1 - f0, r1 - r0) && path_clear(b, f0, r0, f1, r1)
            && !has_friendly(b, p, f1, r1),
        Piece::Bishop => bishop_line(f1 - f0, r1 - r0) && path_clear(b, f0, r0, f1, r1)
            && !has_friendly(b, p, f1, r1),
        Piece::Queen => (rook_line(f1 - f0, r1 - r0) || bishop_line(f1 - f0, r1 - r0))
            && path_clear(b, f0, r0, f1, r1) && !has_friendly(b, p, f1, r1),
    }
}

/// Raw movement: (`f1`, `r1`) is a geometrically possible destination for a
/// piece of kind `k` owned by `p` standing at (`f0`, `r0`), before the
/// self-check filter.
pub open spec fn movement_ok(
    b: Seq<Option<OwnedPiece>>,
    p: Player,
    k: Piece,
    f0: int,
    r0: int,
    f1: int,
    r1: int,
) -> bool {
    on_board(f0, r0) && on_board(f1, r1) && piece_geometry(b, p, k, f0, r0, f1, r1)
}

/// Raw movement for whatever piece stands at the origin square; false for
/// an empty origin.
pub open spec fn pseudo_legal(
    b: Seq<Option<OwnedPiece>>,
    f0: int,
    r0: int,
    f1: int,
    r1: int,
) -> bool {
    occ(b, f0, r0) matches Some(q) && movement_ok(b, q.player, q.piece, f0, r0, f1, r1)
}

/// Whether the piece of `by` standing at (`f0`, `r0`) has (`f1`, `r1`) in
/// its raw movement output; false unless such a piece stands there.
pub open spec fn attacks(
    b: Seq<Option<OwnedPiece>>,
    by: Player,
    f0: int,
    r0: int,
    f1: int,
    r1: int,
) -> bool {
    occ(b, f0, r0) matches Some(q) && q.player == by && movement_ok(b, by, q.piece, f0, r0, f1, r1)
}

/// Whether any piece of `by` has (`f`, `r`) in its raw movement output.
pub open spec fn attacked(b: Seq<Option<OwnedPiece>>, f: int, r: int, by: Player) -> bool {
    exists|f0: int, r0: int| #[trigger] attacks(b, by, f0, r0, f, r)
}

/// Whether a king of `p` stands on a square attacked by the other side.
pub open spec fn in_check(b: Seq<Option<OwnedPiece>>, p: Player) -> bool {
    exists|f: int, r: int|
        {
            &&& on_board(f, r)
            &&& #[trigger] occ(b, f, r) == Some(OwnedPiece { player: p, piece: Piece::King })
            &&& attacked(b, f, r, p.spec_other())
        }
}

/// What the moved piece becomes on arrival: a pawn reaching its farthest
/// rank is promoted to a queen, every other piece is unchanged.
pub open spec fn moved_occupant(q: OwnedPiece, r1: int) -> OwnedPiece {
    if q.piece is Pawn && r1 == promotion_rank(q.player) {
        OwnedPiece { player: q.player, piece: Piece::Queen }
    } else {
        q
    }
}

/// The board after relocating the occupant of (`f0`, `r0`) to (`f1`, `r1`)
/// and resolving promotion; unchanged when the origin is empty.
pub open spec fn board_after(
    b: Seq<Option<OwnedPiece>>,
    f0: int,
    r0: int,
    f1: int,
    r1: int,
) -> Seq<Option<OwnedPiece>> {
    match occ(b, f0, r0) {
        Some(q) => b.update(sq_index(f1, r1), Some(moved_occupant(q, r1))).update(
            sq_index(f0, r0),
            None,
        ),
        None => b,
    }
}

/// A legal move for side `p`: `p`'s own piece stands at the origin, the
/// destination is in its raw movement output, and after hypothetically
/// applying the move `p`'s king is not attacked.
pub open spec fn legal_move(
    b: Seq<Option<OwnedPiece>>,
    p: Player,
    f0: int,
    r0: int,
    f1: int,
    r1: int,
) -> bool {
    &&& occ(b, f0, r0) matches Some(q) && q.player == p
    &&& pseudo_legal(b, f0, r0, f1, r1)
    &&& !in_check(board_after(b, f0, r0, f1, r1), p)
}

/// A legal move for whichever side owns the piece at the origin square;
/// false for an empty origin.
pub open spec fn move_allowed(
    b: Seq<Option<OwnedPiece>>,
    f0: int,
    r0: int,
    f1: int,
    r1: int,
) -> bool {
    occ(b, f0, r0) matches Some(q) && legal_move(b, q.player, f0, r0, f1, r1)
}

/// Whether the piece of `p` standing at (`f0`, `r0`) has at least one
/// legal destination.
pub open spec fn any_legal_from(b: Seq<Option<OwnedPiece>>, p: Player, f0: int, r0: int) -> bool {
    exists|f1: int, r1: int| #[trigger] legal_move(b, p, f0, r0, f1, r1)
}

/// Whether side `p` has any legal move at all on board `b`.
pub open spec fn exists_legal_move(b: Seq<Option<OwnedPiece>>, p: Player) -> bool {
    exists|f0: int, r0: int| #[trigger] any_legal_from(b, p, f0, r0)
}

/// How the game stands on board `b` with `to_move` to play: `Continue`
/// while `to_move` has a legal move; otherwise `Win` for the other side if
/// `to_move` is in check (checkmate), else `Draw` (stalemate).
pub open spec fn board_condition(b: Seq<Option<OwnedPiece>>, to_move: Player) -> BoardCondition {
    if exists_legal_move(b, to_move) {
        BoardCondition::Continue
    } else if in_check(b, to_move) {
        BoardCondition::Win(to_move.spec_other())
    } else {
        BoardCondition::Draw
    }
}

/// The verdict of evaluating a board position for the side to move.
#[derive(Clone, Copy, PartialEq, Eq, Structural, Debug)]
pub enum BoardCondition {
    Win(Player),
    Draw,
    Continue,
}

impl Board {
    /// Whether the square holds a piece of `p`'s own side.
    fn friendly_at(&self, p: Player, sq: Square) -> (r: bool)
        requires
            sq.in_bounds(),
        ensures
            r == has_friendly(self@, p, sq.file as int, sq.rank as int),
    {
        match self.get(sq) {
            Some(q) => q.player == p,
            None => false,
        }
    }

    /// Whether the square holds a piece of the side opposing `p`.
    fn enemy_at(&self, p: Player, sq: Square) -> (r: bool)
        requires
            sq.in_bounds(),
        ensures
            r == has_enemy(self@, p, sq.file as int, sq.rank as int),
    {
        match self.get(sq) {
            Some(q) => q.player == p.other(),
            None => false,
        }
    }

    /// Whether the square is empty.
    fn empty_at(&self, sq: Square) -> (r: bool)
        requires
            sq.in_bounds(),
        ensures
            r == is_empty_at(self@, sq.file as int, sq.rank as int),
    {
        match self.get(sq) {
            Some(_) => false,
            None => true,
        }
    }

    /// Walks the straight or diagonal line from `from` to `to` and reports
    /// whether every square strictly between the two is empty: the walk
    /// stops at the first occupied square it meets.
    #[verifier::loop_isolation(false)]
    fn path_clear_between(&self, from: Square, to: Square) -> (res: bool)
        requires
            from.in_bounds(),
            to.in_bounds(),
            rook_line(to.file as int - from.file as int, to.rank as int - from.rank as int)
                || bishop_line(to.file as int - from.file as int, to.rank as int - from.rank as int),
        ensures
            res == path_clear(
                self@,
                from.file as int,
                from.rank as int,
                to.file as int,
                to.rank as int,
            ),
    {
        let f0: i16 = from.file as i16;
        let r0: i16 = from.rank as i16;
        let f1: i16 = to.file as i16;
        let r1: i16 = to.rank as i16;
        let df: i16 = f1 - f0;
        let dr: i16 = r1 - r0;
        let adf: i16 = if df >= 0 {
            df
        } else {
            -df
        };
        let adr: i16 = if dr >= 0 {
            dr
        } else {
            -dr
        };
        let steps: i16 = if adf >= adr {
            adf
        } else {
            adr
        };
        let sf: i16 = if df > 0 {
            1
        } else if df < 0 {
            -1
        } else {
            0
        };
        let sr: i16 = if dr > 0 {
            1
        } else if dr < 0 {
            -1
        } else {
            0
        };
        proof {
            assert(steps == ray_len(f1 as int - f0 as int, r1 as int - r0 as int));
            assert(sf as int == off_sign(f1 as int - f0 as int));
            assert(sr as int == off_sign(r1 as int - r0 as int));
            assert(df != 0 ==> steps == off_abs(df as int));
            assert(dr != 0 ==> steps == off_abs(dr as int));
        }
        let mut j: i16 = 1;
        let mut cf: i16 = f0 + sf;
        let mut cr: i16 = r0 + sr;
        proof {
            lemma_sign_step(0, sf as int);
            lemma_sign_step(0, sr as int);
        }
        while j < steps
            invariant
                1 <= j <= steps || (steps < 1 && j == 1),
                cf as int == f0 as int + j as int * off_sign(df as int),
                cr as int == r0 as int + j as int * off_sign(dr as int),
                forall|jj: int|
                    1 <= jj < j as int ==> #[trigger] ray_step_empty(
                        self@,
                        f0 as int,
                        r0 as int,
                        df as int,
                        dr as int,
                        jj,
                    ),
            decreases steps as int - j as int,
        {
            proof {
                lemma_sign_mul_bounds(j as int, sf as int);
                lemma_sign_mul_bounds(j as int, sr as int);
                assert(0 <= cf < 8 && 0 <= cr < 8);
            }
            let sq = Square { file: cf as u8, rank: cr as u8 };
            if !self.empty_at(sq) {
                proof {
                    assert(!ray_step_empty(
                        self@,
                        f0 as int,
                        r0 as int,
                        df as int,
                        dr as int,
                        j as int,
                    ));
                }
                return false;
            }
            proof {
                assert(ray_step_empty(self@, f0 as int, r0 as int, df as int, dr as int, j as int));
            }
            proof {
                lemma_sign_step(j as int, sf as int);
                lemma_sign_step(j as int, sr as int);
            }
            j = j + 1;
            cf = cf + sf;
            cr = cr + sr;
        }
        true
    }
}

impl Board {
    /// Whether (`f1`, `r1`) of `to` is a geometrically possible destination
    /// for a piece of kind `k` owned by `p` standing at `from`, before the
    /// self-check filter.
    fn geometry_allowed(&self, p: Player, k: Piece, from: Square, to: Square) -> (res: bool)
        requires
            from.in_bounds(),
            to.in_bounds(),
        ensures
            res == movement_ok(
                self@,
                p,
                k,
                from.file as int,
                from.rank as int,
                to.file as int,
                to.rank as int,
            ),
    {
        let df: i16 = to.file as i16 - from.file as i16;
        let dr: i16 = to.rank as i16 - from.rank as i16;
        let adf: i16 = if df >= 0 {
            df
        } else {
            -df
        };
        let adr: i16 = if dr >= 0 {
            dr
        } else {
            -dr
        };
        match k {
            Piece::Pawn => {
                let dir: i16 = match p {
                    Player::White => 1,
                    Player::Black => -1,
                };
                let start: i16 = match p {
                    Player::White => 1,
                    Player::Black => 6,
                };
                if df == 0 && dr == dir {
                    self.empty_at(to)
                } else if df == 0 && dr == 2 * dir && from.rank as i16 == start {
                    let mid = Square { file: from.file, rank: (from.rank as i16 + dir) as u8 };
                    self.empty_at(mid) && self.empty_at(to)
                } else if adf == 1 && dr == dir {
                    self.enemy_at(p, to)
                } else {
                    false
                }
            },
            Piece::Knight => {
                ((adf == 2 && adr == 1) || (adf == 1 && adr == 2)) && !self.friendly_at(p, to)
            },
            Piece::King => {
                (df != 0 || dr != 0) && adf <= 1 && adr <= 1 && !self.friendly_at(p, to)
            },
            Piece::Rook => {
                ((df == 0) != (dr == 0)) && self.path_clear_between(from, to) && !self.friendly_at(
                    p,
                    to,
                )
            },
            Piece::Bishop => {
                df != 0 && adf == adr && self.path_clear_between(from, to) && !self.friendly_at(
                    p,
                    to,
                )
            },
            Piece::Queen => {
                (((df == 0) != (dr == 0)) || (df != 0 && adf == adr)) && self.path_clear_between(
                    from,
                    to,
                ) && !self.friendly_at(p, to)
            },
        }
    }

    /// The board after hypothetically applying the move, on a snapshot:
    /// the occupant of `from` is relocated to `to` and promotion is
    /// resolved; the board itself is untouched.
    pub fn after_move(&self, from: Square, to: Square) -> (b2: Board)
        requires
            from.in_bounds(),
            to.in_bounds(),
            occ(self@, from.file as int, from.rank as int) is Some,
        ensures
            b2@ == board_after(
                self@,
                from.file as int,
                from.rank as int,
                to.file as int,
                to.rank as int,
            ),
    {
        let mut b2 = *self;
        match self.get(from) {
            Some(q) => {
                let promoted = match (q.piece, q.player) {
                    (Piece::Pawn, Player::White) => to.rank == 7,
                    (Piece::Pawn, Player::Black) => to.rank == 0,
                    _ => false,
                };
                let landed = if promoted {
                    OwnedPiece { player: q.player, piece: Piece::Queen }
                } else {
                    q
                };
                proof {
                    assert(landed == moved_occupant(q, to.rank as int));
                }
                b2.set(to, Some(landed));
                b2.set(from, None);
                b2
            },
            None => b2,
        }
    }

    /// Whether any piece of `by` has `target` in its raw movement output;
    /// raw geometry is used, not the self-check filter, so the question is
    /// well-founded.
    pub fn square_attacked(&self, target: Square, by: Player) -> (r: bool)
        requires
            target.in_bounds(),
        ensures
            r == attacked(self@, target.file as int, target.rank as int, by),
    {
        let mut i: u8 = 0;
        while i < 64
            invariant
                i <= 64,
                target.in_bounds(),
                forall|f0: int, r0: int|
                    on_board(f0, r0) && sq_index(f0, r0) < i as int ==> !#[trigger] attacks(
                        self@,
                        by,
                        f0,
                        r0,
                        target.file as int,
                        target.rank as int,
                    ),
            decreases 64 - i as int,
        {
            let sq = Square { file: i % 8, rank: i / 8 };
            let hit = match self.get(sq) {
                Some(q) => {
                    q.player == by && self.is_pseudo_legal(sq, target)
                },
                None => false,
            };
            if hit {
                proof {
                    assert(attacks(
                        self@,
                        by,
                        sq.file as int,
                        sq.rank as int,
                        target.file as int,
                        target.rank as int,
                    ));
                }
                return true;
            }
            proof {
                assert forall|f0: int, r0: int|
                    on_board(f0, r0) && sq_index(f0, r0) < i as int + 1 implies !#[trigger] attacks(
                    self@,
                    by,
                    f0,
                    r0,
                    target.file as int,
                    target.rank as int,
                ) by {
                    if sq_index(f0, r0) == i as int {
                        assert(f0 == sq.file as int && r0 == sq.rank as int);
                    }
                }
            }
            i = i + 1;
        }
        proof {
            assert forall|f0: int, r0: int|
                !#[trigger] attacks(
                    self@,
                    by,
                    f0,
                    r0,
                    target.file as int,
                    target.rank as int,
                ) by {
                if attacks(self@, by, f0, r0, target.file as int, target.rank as int) {
                    assert(on_board(f0, r0));
                    assert(sq_index(f0, r0) < 64);
                }
            }
        }
        false
    }

    /// Whether `p`'s king stands on a square attacked by the other side.
    pub fn in_check(&self, p: Player) -> (r: bool)
        ensures
            r == in_check(self@, p),
    {
        let mut i: u8 = 0;
        while i < 64
            invariant
                i <= 64,
                forall|f: int, r: int|
                    on_board(f, r) && sq_index(f, r) < i as int ==> !(#[trigger] occ(self@, f, r)
                        == Some(OwnedPiece { player: p, piece: Piece::King }) && attacked(
                        self@,
                        f,
                        r,
                        p.spec_other(),
                    )),
            decreases 64 - i as int,
        {
            let sq = Square { file: i % 8, rank: i / 8 };
            let king_here = match self.get(sq) {
                Some(q) => q.player == p && matches!(q.piece, Piece::King),
                None => false,
            };
            if king_here {
                if self.square_attacked(sq, p.other()) {
                    proof {
                        assert(occ(self@, sq.file as int, sq.rank as int) == Some(
                            OwnedPiece { player: p, piece: Piece::King },
                        ));
                    }
                    return true;
                }
            }
            proof {
                assert forall|f: int, r: int|
                    on_board(f, r) && sq_index(f, r) < i as int + 1 implies !(#[trigger] occ(
                    self@,
                    f,
                    r,
                ) == Some(OwnedPiece { player: p, piece: Piece::King }) && attacked(
                    self@,
                    f,
                    r,
                    p.spec_other(),
                )) by {
                    if sq_index(f, r) == i as int {
                        assert(f == sq.file as int && r == sq.rank as int);
                    }
                }
            }
            i = i + 1;
        }
        false
    }

    /// Whether `to` is a legal destination for whichever side owns the
    /// piece at `from`.
    fn allowed(&self, from: Square, to: Square) -> (res: bool)
        requires
            from.in_bounds(),
            to.in_bounds(),
        ensures
            res == move_allowed(
                self@,
                from.file as int,
                from.rank as int,
                to.file as int,
                to.rank as int,
            ),
    {
        match self.get(from) {
            Some(q) => {
                if self.geometry_allowed(q.player, q.piece, from, to) {
                    let b2 = self.after_move(from, to);
                    !b2.in_check(q.player)
                } else {
                    false
                }
            },
            None => false,
        }
    }

    /// Whether the move is in the self-check-filtered legal set of the side
    /// that owns the origin piece.
    pub fn is_move_valid(&self, move_command: crate::move_descriptor::MoveDescriptor) -> (res: bool)
        ensures
            res == move_allowed(
                self@,
                move_command.spec_from().file as int,
                move_command.spec_from().rank as int,
                move_command.spec_to().file as int,
                move_command.spec_to().rank as int,
            ),
    {
        let from = move_command.from();
        let to = move_command.to();
        self.allowed(from, to)
    }

    /// Whether the piece of `p` standing at `from` has at least one legal
    /// destination.
    fn any_legal_move_from(&self, p: Player, from: Square) -> (res: bool)
        requires
            from.in_bounds(),
        ensures
            res == any_legal_from(self@, p, from.file as int, from.rank as int),
    {
        let f0 = from.file;
        let r0 = from.rank;
        let friendly_here = self.friendly_at(p, from);
        if !friendly_here {
            proof {
                assert forall|f1: int, r1: int|
                    !#[trigger] legal_move(self@, p, f0 as int, r0 as int, f1, r1) by {}
            }
            return false;
        }
        let mut j: u8 = 0;
        while j < 64
            invariant
                j <= 64,
                from.in_bounds(),
                f0 == from.file,
                r0 == from.rank,
                has_friendly(self@, p, f0 as int, r0 as int),
                forall|f1: int, r1: int|
                    on_board(f1, r1) && sq_index(f1, r1) < j as int ==> !#[trigger] legal_move(
                        self@,
                        p,
                        f0 as int,
                        r0 as int,
                        f1,
                        r1,
                    ),
            decreases 64 - j as int,
        {
            let to = Square { file: j % 8, rank: j / 8 };
            if self.allowed(from, to) {
                proof {
                    assert(legal_move(self@, p, f0 as int, r0 as int, to.file as int,
                        to.rank as int));
                }
                return true;
            }
            proof {
                assert forall|f1: int, r1: int|
                    on_board(f1, r1) && sq_index(f1, r1) < j as int + 1 implies !#[trigger] legal_move(
                    self@,
                    p,
                    f0 as int,
                    r0 as int,
                    f1,
                    r1,
                ) by {
                    if sq_index(f1, r1) == j as int {
                        assert(f1 == to.file as int && r1 == to.rank as int);
                    }
                }
            }
            j = j + 1;
        }
        proof {
            assert forall|f1: int, r1: int|
                !#[trigger] legal_move(self@, p, f0 as int, r0 as int, f1, r1) by {
                if legal_move(self@, p, f0 as int, r0 as int, f1, r1) {
                    assert(on_board(f1, r1));
                    assert(sq_index(f1, r1) < 64);
                }
            }
        }
        false
    }

    /// Whether side `p` has any legal move at all.
    pub fn has_any_legal_move(&self, p: Player) -> (res: bool)
        ensures
            res == exists_legal_move(self@, p),
    {
        let mut i: u8 = 0;
        while i < 64
            invariant
                i <= 64,
                forall|f0: int, r0: int|
                    on_board(f0, r0) && sq_index(f0, r0) < i as int ==> !#[trigger] any_legal_from(
                        self@,
                        p,
                        f0,
                        r0,
                    ),
            decreases 64 - i as int,
        {
            let from = Square { file: i % 8, rank: i / 8 };
            if self.any_legal_move_from(p, from) {
                return true;
            }
            proof {
                assert forall|f0: int, r0: int|
                    on_board(f0, r0) && sq_index(f0, r0) < i as int + 1 implies !#[trigger] any_legal_from(
                    self@,
                    p,
                    f0,
                    r0,
                ) by {
                    if sq_index(f0, r0) == i as int {
                        assert(f0 == from.file as int && r0 == from.rank as int);
                    }
                }
            }
            i = i + 1;
        }
        proof {
            assert forall|f0: int, r0: int| !#[trigger] any_legal_from(self@, p, f0, r0) by {
                if any_legal_from(self@, p, f0, r0) {
                    let (f1, r1) = choose|f1: int, r1: int|
                        #[trigger] legal_move(self@, p, f0, r0, f1, r1);
                    assert(on_board(f0, r0));
                    assert(sq_index(f0, r0) < 64);
                }
            }
        }
        false
    }

    /// Evaluates the position for the side about to move: `Continue` while
    /// it has a legal move, otherwise `Win` for the other side when it is
    /// in check (checkmate) and `Draw` when it is not (stalemate).
    pub fn evaluate_bord(&self, to_move: Player) -> (res: BoardCondition)
        ensures
            res == board_condition(self@, to_move),
    {
        if self.has_any_legal_move(to_move) {
            BoardCondition::Continue
        } else if self.in_check(to_move) {
            BoardCondition::Win(to_move.other())
        } else {
            BoardCondition::Draw
        }
    }

    /// Whether `to` is in the raw movement output of whatever piece stands
    /// at `from`; false when the origin is empty.
    pub fn is_pseudo_legal(&self, from: Square, to: Square) -> (res: bool)
        requires
            from.in_bounds(),
            to.in_bounds(),
        ensures
            res == pseudo_legal(
                self@,
                from.file as int,
                from.rank as int,
                to.file as int,
                to.rank as int,
            ),
    {
        match self.get(from) {
            Some(q) => self.geometry_allowed(q.player, q.piece, from, to),
            None => false,
        }
    }
}

impl Board {
    /// The raw movement output for the piece standing at `from`: every
    /// geometrically possible destination given the current occupancy,
    /// before the self-check filter. Empty when the origin square is empty.
    pub fn piece_destinations(&self, from: Square) -> (v: Vec<Square>)
        requires
            from.in_bounds(),
        ensures
            forall|k: int| 0 <= k < v@.len() ==> (#[trigger] v@[k]).spec_in_bounds(),
            forall|sq: Square| #![trigger v@.contains(sq)]
                v@.contains(sq) <==> pseudo_legal(
                    self@,
                    from.file as int,
                    from.rank as int,
                    sq.file as int,
                    sq.rank as int,
                ),
    {
        let mut v: Vec<Square> = Vec::new();
        let mut i: u8 = 0;
        while i < 64
            invariant
                i <= 64,
                from.in_bounds(),
                forall|k: int| 0 <= k < v@.len() ==> (#[trigger] v@[k]).spec_in_bounds()
                    && sq_index(v@[k].file as int, v@[k].rank as int) < i as int
                    && pseudo_legal(
                        self@,
                        from.file as int,
                        from.rank as int,
                        v@[k].file as int,
                        v@[k].rank as int,
                    ),
                forall|sq: Square| #![trigger v@.contains(sq)]
                    sq.spec_in_bounds() && sq_index(sq.file as int, sq.rank as int) < i as int
                        ==> (v@.contains(sq) <==> pseudo_legal(
                        self@,
                        from.file as int,
                        from.rank as int,
                        sq.file as int,
                        sq.rank as int,
                    )),
            decreases 64 - i as int,
        {
            let to = Square { file: i % 8, rank: i / 8 };
            let ghost old_v = v@;
            if self.is_pseudo_legal(from, to) {
                v.push(to);
            }
            proof {
                assert forall|sq: Square| #![trigger v@.contains(sq)]
                    sq.spec_in_bounds() && sq_index(sq.file as int, sq.rank as int) < i as int + 1
                        implies (v@.contains(sq) <==> pseudo_legal(
                    self@,
                    from.file as int,
                    from.rank as int,
                    sq.file as int,
                    sq.rank as int,
                )) by {
                    let f0 = from.file as int;
                    let r0 = from.rank as int;
                    if sq_index(sq.file as int, sq.rank as int) == i as int {
                        assert(sq.file as int == to.file as int && sq.rank as int == to.rank as int);
                        assert(sq == to);
                        if pseudo_legal(self@, f0, r0, sq.file as int, sq.rank as int) {
                            assert(v@[v@.len() - 1] == to);
                            assert(v@.contains(to));
                        } else {
                            if v@.contains(sq) {
                                let k = choose|k: int| 0 <= k < v@.len() && v@[k] == sq;
                                assert(pseudo_legal(
                                    self@,
                                    f0,
                                    r0,
                                    v@[k].file as int,
                                    v@[k].rank as int,
                                ));
                            }
                        }
                    } else {
                        if v@.contains(sq) {
                            let k = choose|k: int| 0 <= k < v@.len() && v@[k] == sq;
                            if k < old_v.len() {
                                assert(old_v[k] == sq);
                                assert(old_v.contains(sq));
                            } else {
                                assert(v@[k] == to);
                                assert(sq_index(sq.file as int, sq.rank as int) == i as int);
                            }
                        } else {
                            if old_v.contains(sq) {
                                let k = choose|k: int| 0 <= k < old_v.len() && old_v[k] == sq;
                                assert(v@[k] == sq);
                                assert(v@.contains(sq));
                            }
                        }
                    }
                }
            }
            i = i + 1;
        }
        proof {
            assert forall|sq: Square| #![trigger v@.contains(sq)]
                v@.contains(sq) <==> pseudo_legal(
                self@,
                from.file as int,
                from.rank as int,
                sq.file as int,
                sq.rank as int,
            ) by {
                if sq.spec_in_bounds() {
                    assert(sq_index(sq.file as int, sq.rank as int) < 64);
                } else {
                    if v@.contains(sq) {
                        let k = choose|k: int| 0 <= k < v@.len() && v@[k] == sq;
                        assert(v@[k].spec_in_bounds());
                    }
                    assert(!on_board(sq.file as int, sq.rank as int));
                }
            }
        }
        v
    }

    /// The self-check-filtered legal destinations for the piece standing at
    /// `from`, owned by whichever side the piece belongs to. Empty when the
    /// origin square is empty.
    pub fn legal_destinations(&self, from: Square) -> (v: Vec<Square>)
        requires
            from.in_bounds(),
        ensures
            forall|k: int| 0 <= k < v@.len() ==> (#[trigger] v@[k]).spec_in_bounds(),
            forall|sq: Square| #![trigger v@.contains(sq)]
                v@.contains(sq) <==> move_allowed(
                    self@,
                    from.file as int,
                    from.rank as int,
                    sq.file as int,
                    sq.rank as int,
                ),
    {
        let mut v: Vec<Square> = Vec::new();
        let mut i: u8 = 0;
        while i < 64
            invariant
                i <= 64,
                from.in_bounds(),
                forall|k: int| 0 <= k < v@.len() ==> (#[trigger] v@[k]).spec_in_bounds()
                    && sq_index(v@[k].file as int, v@[k].rank as int) < i as int
                    && move_allowed(
                        self@,
                        from.file as int,
                        from.rank as int,
                        v@[k].file as int,
                        v@[k].rank as int,
                    ),
                forall|sq: Square| #![trigger v@.contains(sq)]
                    sq.spec_in_bounds() && sq_index(sq.file as int, sq.rank as int) < i as int
                        ==> (v@.contains(sq) <==> move_allowed(
                        self@,
                        from.file as int,
                        from.rank as int,
                        sq.file as int,
                        sq.rank as int,
                    )),
            decreases 64 - i as int,
        {
            let to = Square { file: i % 8, rank: i / 8 };
            let ghost old_v = v@;
            if self.allowed(from, to) {
                v.push(to);
            }
            proof {
                assert forall|sq: Square| #![trigger v@.contains(sq)]
                    sq.spec_in_bounds() && sq_index(sq.file as int, sq.rank as int) < i as int + 1
                        implies (v@.contains(sq) <==> move_allowed(
                    self@,
                    from.file as int,
                    from.rank as int,
                    sq.file as int,
                    sq.rank as int,
                )) by {
                    let f0 = from.file as int;
                    let r0 = from.rank as int;
                    if sq_index(sq.file as int, sq.rank as int) == i as int {
                        assert(sq.file as int == to.file as int && sq.rank as int == to.rank as int);
                        assert(sq == to);
                        if move_allowed(self@, f0, r0, sq.file as int, sq.rank as int) {
                            assert(v@[v@.len() - 1] == to);
                            assert(v@.contains(to));
                        } else {
                            if v@.contains(sq) {
                                let k = choose|k: int| 0 <= k < v@.len() && v@[k] == sq;
                                assert(move_allowed(
                                    self@,
                                    f0,
                                    r0,
                                    v@[k].file as int,
                                    v@[k].rank as int,
                                ));
                            }
                        }
                    } else {
                        if v@.contains(sq) {
                            let k = choose|k: int| 0 <= k < v@.len() && v@[k] == sq;
                            if k < old_v.len() {
                                assert(old_v[k] == sq);
                                assert(old_v.contains(sq));
                            } else {
                                assert(v@[k] == to);
                                assert(sq_index(sq.file as int, sq.rank as int) == i as int);
                            }
                        } else {
                            if old_v.contains(sq) {
                                let k = choose|k: int| 0 <= k < old_v.len() && old_v[k] == sq;
                                assert(v@[k] == sq);
                                assert(v@.contains(sq));
                            }
                        }
                    }
                }
            }
            i = i + 1;
        }
        proof {
            assert forall|sq: Square| #![trigger v@.contains(sq)]
                v@.contains(sq) <==> move_allowed(
                self@,
                from.file as int,
                from.rank as int,
                sq.file as int,
                sq.rank as int,
            ) by {
                if sq.spec_in_bounds() {
                    assert(sq_index(sq.file as int, sq.rank as int) < 64);
                } else {
                    if v@.contains(sq) {
                        let k = choose|k: int| 0 <= k < v@.len() && v@[k] == sq;
                        assert(v@[k].spec_in_bounds());
                    }
                    assert(!on_board(sq.file as int, sq.rank as int));
                }
            }
        }
        v
    }
}

/// Law: every generated candidate destination lies within the 8x8 board,
/// for every piece kind and every origin; so does the origin itself.
pub proof fn lemma_candidates_on_board(
    b: Seq<Option<OwnedPiece>>,
    f0: int,
    r0: int,
    f1: int,
    r1: int,
)
    requires
        pseudo_legal(b, f0, r0, f1, r1),
    ensures
        on_board(f0, r0),
        on_board(f1, r1),
{
}

/// Law: a sliding piece's ray is blocked by the first occupied square in
/// its path. Every square strictly between the origin and a destination of
/// its move is empty; an occupied destination is reachable only when it
/// holds an enemy piece (a capture); and a square with an occupied square
/// strictly before it on the ray is no destination at all.
pub proof fn lemma_slider_blocking(
    b: Seq<Option<OwnedPiece>>,
    q: OwnedPiece,
    f0: int,
    r0: int,
    f1: int,
    r1: int,
)
    requires
        occ(b, f0, r0) == Some(q),
        q.piece is Rook || q.piece is Bishop || q.piece is Queen,
    ensures
        pseudo_legal(b, f0, r0, f1, r1) ==> forall|j: int|
            1 <= j < ray_len(f1 - f0, r1 - r0) ==> #[trigger] ray_step_empty(
                b,
                f0,
                r0,
                f1 - f0,
                r1 - r0,
                j,
            ),
        pseudo_legal(b, f0, r0, f1, r1) && occ(b, f1, r1) is Some ==> has_enemy(
            b,
            q.player,
            f1,
            r1,
        ),
        (exists|j: int|
            1 <= j < ray_len(f1 - f0, r1 - r0) && !#[trigger] ray_step_empty(
                b,
                f0,
                r0,
                f1 - f0,
                r1 - r0,
                j,
            )) ==> !pseudo_legal(b, f0, r0, f1, r1),
{
    if pseudo_legal(b, f0, r0, f1, r1) && occ(b, f1, r1) is Some {
        assert(!has_friendly(b, q.player, f1, r1));
        assert(has_enemy(b, q.player, f1, r1));
    }
}

/// Law: a king is never a legal capture target. Whenever a legal move of
/// side `p` lands on the other side's king, that king was already attacked
/// before the move: in any position where the side not on turn is out of
/// check, no legal move captures its king.
pub proof fn lemma_king_never_captured(
    b: Seq<Option<OwnedPiece>>,
    p: Player,
    f0: int,
    r0: int,
    f1: int,
    r1: int,
)
    requires
        legal_move(b, p, f0, r0, f1, r1),
        occ(b, f1, r1) == Some(OwnedPiece { player: p.spec_other(), piece: Piece::King }),
    ensures
        in_check(b, p.spec_other()),
{
    assert(attacks(b, p, f0, r0, f1, r1));
    assert(attacked(b, f1, r1, p));
}

/// Law: no move in the self-check-filtered legal set ever leaves the
/// mover's own king attacked immediately after being applied.
pub proof fn lemma_legal_move_keeps_king_safe(
    b: Seq<Option<OwnedPiece>>,
    p: Player,
    f0: int,
    r0: int,
    f1: int,
    r1: int,
)
    requires
        legal_move(b, p, f0, r0, f1, r1),
    ensures
        !in_check(board_after(b, f0, r0, f1, r1), p),
{
}

/// Multiplying by a sign in -1..=1 advances one step at a time.
proof fn lemma_sign_step(j: int, s: int)
    requires
        -1 <= s <= 1,
    ensures
        (j + 1) * s == j * s + s,
{
    assert((j + 1) * s == j * s + s) by (nonlinear_arith);
}

/// The product of a nonnegative count and a sign in -1..=1 stays within the
/// count on either side.
proof fn lemma_sign_mul_bounds(j: int, s: int)
    requires
        -1 <= s <= 1,
        0 <= j,
    ensures
        s == 0 ==> j * s == 0,
        s == 1 ==> j * s == j,
        s == -1 ==> j * s == -j,
{
    assert(s == 0 ==> j * s == 0) by (nonlinear_arith);
    assert(s == 1 ==> j * s == j) by (nonlinear_arith);
    assert(s == -1 ==> j * s == -j) by (nonlinear_arith);
}

} // verus!
