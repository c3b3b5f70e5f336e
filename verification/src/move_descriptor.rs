use vstd::prelude::*;

use crate::square::Square;

verus! {

/// Whether `c` is a file letter, `a` through `h`.
pub open spec fn is_file_char(c: char) -> bool {
    'a' as int <= c as int && c as int <= 'h' as int
}

/// Whether `c` is a rank digit, `1` through `8`.
pub open spec fn is_rank_char(c: char) -> bool {
    '1' as int <= c as int && c as int <= '8' as int
}

/// The coordinate in `0..8` that `c` stands for: `a`/`1` give 0 up to
/// `h`/`8` giving 7.
pub open spec fn char_coord(c: char) -> int {
    if is_file_char(c) {
        c as int - 'a' as int
    } else {
        c as int - '1' as int
    }
}

/// Whether `s` is a well-formed four-character move text: file letters at
/// positions 0 and 2, rank digits at positions 1 and 3.
pub open spec fn wf_move_text(s: Seq<char>) -> bool {
    &&& s.len() == 4
    &&& is_file_char(s[0])
    &&& is_rank_char(s[1])
    &&& is_file_char(s[2])
    &&& is_rank_char(s[3])
}

/// An origin and a destination square, both on the board by construction:
/// a descriptor out of range can never be built.
#[derive(Clone, Copy, PartialEq, Eq, Structural, Debug)]
pub struct MoveDescriptor {
    from: Square,
    to: Square,
}

impl MoveDescriptor {
    #[verifier::type_invariant]
    spec fn wf(self) -> bool {
        self.from.spec_in_bounds() && self.to.spec_in_bounds()
    }

    pub closed spec fn spec_from(self) -> Square {
        self.from
    }

    pub closed spec fn spec_to(self) -> Square {
        self.to
    }

    /// Builds a descriptor from two squares; refused unless both fit on the
    /// board.
    pub fn new(from: Square, to: Square) -> (r: Option<MoveDescriptor>)
        ensures
            (r is Some) <==> (from.spec_in_bounds() && to.spec_in_bounds()),
            r matches Some(m) ==> m.spec_from() == from && m.spec_to() == to,
    {
        if fits_on_board(from, to) {
            Some(MoveDescriptor { from, to })
        } else {
            None
        }
    }

    /// The origin square; always on the board.
    pub fn from(&self) -> (s: Square)
        ensures
            s == self.spec_from(),
            s.in_bounds(),
    {
        proof {
            use_type_invariant(self);
        }
        self.from
    }

    /// The destination square; always on the board.
    pub fn to(&self) -> (s: Square)
        ensures
            s == self.spec_to(),
            s.in_bounds(),
    {
        proof {
            use_type_invariant(self);
        }
        self.to
    }

    /// Parses a four-character move text such as `e2e4` under the strict
    /// rule: file letters at positions 0 and 2, rank digits at positions 1
    /// and 3. Malformed notation yields `None` and no descriptor is built.
    pub fn from_text(value: &str) -> (r: Option<MoveDescriptor>)
        ensures
            (r is Some) <==> wf_move_text(value@),
            r matches Some(m) ==> {
                &&& m.spec_from().file as int == char_coord(value@[0])
                &&& m.spec_from().rank as int == char_coord(value@[1])
                &&& m.spec_to().file as int == char_coord(value@[2])
                &&& m.spec_to().rank as int == char_coord(value@[3])
            },
    {
        if value.unicode_len() != 4 {
            return None;
        }
        let f0 = match file_index(value.get_char(0)) {
            Some(n) => n,
            None => {
                return None;
            },
        };
        let r0 = match rank_index(value.get_char(1)) {
            Some(n) => n,
            None => {
                return None;
            },
        };
        let f1 = match file_index(value.get_char(2)) {
            Some(n) => n,
            None => {
                return None;
            },
        };
        let r1 = match rank_index(value.get_char(3)) {
            Some(n) => n,
            None => {
                return None;
            },
        };
        Some(MoveDescriptor {
            from: Square { file: f0, rank: r0 },
            to: Square { file: f1, rank: r1 },
        })
    }
}

fn fits_on_board(from: Square, to: Square) -> (r: bool)
    ensures
        r == (from.spec_in_bounds() && to.spec_in_bounds()),
{
    from.in_bounds() && to.in_bounds()
}

/// The coordinate a file letter stands for, or `None` for any other
/// character.
fn file_index(c: char) -> (r: Option<u8>)
    ensures
        (r is Some) <==> is_file_char(c),
        r matches Some(n) ==> n as int == char_coord(c) && n < 8,
{
    let v = c as u32;
    if 'a' as u32 <= v && v <= 'h' as u32 {
        Some((v - 'a' as u32) as u8)
    } else {
        None
    }
}

/// The coordinate a rank digit stands for, or `None` for any other
/// character.
fn rank_index(c: char) -> (r: Option<u8>)
    ensures
        (r is Some) <==> is_rank_char(c),
        r matches Some(n) ==> n as int == char_coord(c) && n < 8,
{
    let v = c as u32;
    if '1' as u32 <= v && v <= '8' as u32 {
        Some((v - '1' as u32) as u8)
    } else {
        None
    }
}

/// Maps a single character to its board coordinate the way the move text
/// does: a file letter or a rank digit gives its coordinate in `0..8`, any
/// other character is refused.
pub fn char_to_num(c: char) -> (r: Result<u8, ()>)
    ensures
        (r is Ok) <==> (is_file_char(c) || is_rank_char(c)),
        r matches Ok(n) ==> n as int == char_coord(c) && n < 8,
{
    if let Some(n) = file_index(c) {
        Ok(n)
    } else if let Some(n) = rank_index(c) {
        Ok(n)
    } else {
        Err(())
    }
}

} // verus!
