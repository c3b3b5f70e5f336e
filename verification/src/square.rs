use vstd::prelude::*;

verus! {

/// A pair of board coordinates. `file` counts columns from the queenside
/// (column `a`), `rank` counts rows from White's back row; on the board both
/// lie in `0..8`.
#[derive(Clone, Copy, PartialEq, Eq, Structural, Debug)]
pub struct Square {
    pub file: u8,
    pub rank: u8,
}

impl Square {
    pub open spec fn spec_in_bounds(self) -> bool {
        self.file < 8 && self.rank < 8
    }

    /// Whether both coordinates lie on the 8x8 board.
    #[verifier::when_used_as_spec(spec_in_bounds)]
    pub fn in_bounds(self) -> (r: bool)
        ensures
            r == self.spec_in_bounds(),
    {
        self.file < 8 && self.rank < 8
    }

    pub fn new(file: u8, rank: u8) -> (s: Square)
        ensures
            s == (Square { file, rank }),
    {
        Square { file, rank }
    }
}

} // verus!
