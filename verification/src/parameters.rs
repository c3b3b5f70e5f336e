use vstd::prelude::*;

verus! {

/// Piece valuation weights. An external configuration source may supply
/// other weights; when it is missing or invalid the caller falls back to
/// `Parameters::default()`, the classical point values with the king counted
/// as effectively unbounded.
#[derive(Clone, Copy, PartialEq, Eq, Structural, Debug)]
pub struct Parameters {
    pub pawn_value: u64,
    pub bishop_value: u64,
    pub knight_value: u64,
    pub rook_value: u64,
    pub queen_value: u64,
    pub king_value: u64,
}

impl Default for Parameters {
    fn default() -> (r: Self)
        ensures
            r.pawn_value == 1,
            r.bishop_value == 3,
            r.knight_value == 3,
            r.rook_value == 5,
            r.queen_value == 9,
            r.king_value == u64::MAX,
    {
        Self {
            pawn_value: 1,
            bishop_value: 3,
            knight_value: 3,
            rook_value: 5,
            queen_value: 9,
            king_value: u64::MAX,
        }
    }
}

/// Where the valuation weights are read from by default.
pub fn default_parameters_location() -> (r: String)
    ensures
        r@ == "./parameters.toml"@,
{
    String::from_str("./parameters.toml")
}

} // verus!
