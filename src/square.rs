//! Coordinates, teams, and algebraic notation of squares.

use vstd::prelude::*;
use crate::error::InvalidAlg;
use crate::text::{
    all_digits, chars_of, decimal_value, digit_value, is_digit, lemma_char_eq, lemma_decimal_two_digits,
    parse_bounded, push_char, suffix,
};

verus! {

/// A side of the classical game. White starts at the bottom (rank index 7)
/// and moves towards rank index 0; Black the other way.
#[derive(Clone, Copy, PartialEq, Eq, Structural, Debug, Hash)]
pub enum Team {
    White,
    Black,
}

impl Team {
    /// The change of rank index of one step forwards.
    pub open spec fn forward_sign(self) -> int {
        match self {
            Team::White => -1,
            Team::Black => 1,
        }
    }

    /// The other side.
    pub fn opponent(self) -> (r: Team)
        ensures
            r != self,
    {
        match self {
            Team::White => Team::Black,
            Team::Black => Team::White,
        }
    }
}

/// A coordinate: rank index (0 is the top rank, Black's back rank) and file
/// index (0 is the `a` file). Squares off the board can be represented; they
/// are checked with `in_bounds` before use.
#[derive(Clone, Copy, PartialEq, Eq, Structural, Debug, Hash)]
pub struct Square(pub i32, pub i32);

/// The letter of file index `file`.
pub open spec fn file_char(file: int) -> char {
    (97 + file) as u8 as char
}

/// The digit of the number `d`, from 0 to 9.
pub open spec fn digit_char(d: int) -> char {
    (48 + d) as u8 as char
}

/// `c` is a lowercase ASCII letter.
pub open spec fn is_lower(c: char) -> bool {
    97 <= c as u32 <= 122
}

/// `s` names a square of a board `height` ranks high and `width` files wide:
/// a lowercase file letter inside the board, then the rank number, from 1 to
/// `height`, in decimal without a leading zero, and nothing else.
pub open spec fn is_alg(s: Seq<char>, height: int, width: int) -> bool {
    &&& s.len() >= 2
    &&& is_lower(s[0])
    &&& s[0] as u32 - 97 < width
    &&& all_digits(s.skip(1))
    &&& digit_value(s[1]) != 0
    &&& 1 <= decimal_value(s.skip(1)) <= height
}

/// The square that `s` names on a board `height` ranks high. Rank number `n`
/// is rank index `height - n`.
pub open spec fn alg_square(s: Seq<char>, height: int) -> Square {
    Square((height - decimal_value(s.skip(1))) as i32, (s[0] as u32 - 97) as i32)
}

/// The notation of a square of the 8×8 board: file letter, then rank digit.
pub open spec fn alg_of(sq: Square) -> Seq<char> {
    seq![file_char(sq.1 as int), digit_char(8 - sq.0)]
}

impl Square {
    /// The square lies on the 8×8 board.
    pub open spec fn spec_in_bounds(self) -> bool {
        0 <= self.0 < 8 && 0 <= self.1 < 8
    }

    /// Whether the square lies on the 8×8 board.
    #[verifier::when_used_as_spec(spec_in_bounds)]
    pub fn in_bounds(self) -> (r: bool)
        ensures
            r == self.spec_in_bounds(),
    {
        self.0 >= 0 && self.0 < 8 && self.1 >= 0 && self.1 < 8
    }

    /// The square lies inside a board of `size.0` ranks and `size.1` files.
    pub open spec fn spec_within(self, size: (u16, u16)) -> bool {
        0 <= self.0 < size.0 && 0 <= self.1 < size.1
    }

    /// Whether the square lies on a board of `size.0` ranks and `size.1`
    /// files whose shape `boundary` further restricts; `boundary` is asked
    /// only about squares inside the rectangle.
    pub fn in_bounds_of<F: Fn(Square) -> bool>(self, size: (u16, u16), boundary: F) -> (r: bool)
        requires
            boundary.requires((self,)),
        ensures
            !self.spec_within(size) ==> !r,
            self.spec_within(size) ==> boundary.ensures((self,), r),
    {
        self.0 >= 0 && self.0 < size.0 as i32 && self.1 >= 0 && self.1 < size.1 as i32 && boundary(
            self,
        )
    }

    /// The square `dist` steps towards the far side of `team`.
    pub fn forwards(self, team: Team, dist: i32) -> (r: Square)
        requires
            i32::MIN <= self.0 + team.forward_sign() * dist <= i32::MAX,
        ensures
            r == Square((self.0 + team.forward_sign() * dist) as i32, self.1),
    {
        match team {
            Team::White => Square(self.0 - dist, self.1),
            Team::Black => Square(self.0 + dist, self.1),
        }
    }

    /// The square `dist` files to the right (towards `h`), for either team.
    pub fn sideways(self, dist: i32) -> (r: Square)
        requires
            i32::MIN <= self.1 + dist <= i32::MAX,
        ensures
            r == Square(self.0, (self.1 + dist) as i32),
    {
        Square(self.0, self.1 + dist)
    }

    /// The square in algebraic notation, such as `e2`.
    pub fn in_alg(&self) -> (r: String)
        requires
            self.spec_in_bounds(),
        ensures
            r@ == alg_of(*self),
    {
        let mut r = String::new();
        push_char(&mut r, (97 + self.1) as u8 as char);
        push_char(&mut r, (48 + 8 - self.0) as u8 as char);
        assert(r@ =~= alg_of(*self));
        r
    }

    /// Reads a square in algebraic notation on a board of `size.0` ranks and
    /// `size.1` files.
    pub fn try_from_alg(an: &str, size: (u16, u16)) -> (r: Result<Square, InvalidAlg>)
        ensures
            r is Ok <==> is_alg(an@, size.0 as int, size.1 as int),
            r matches Ok(sq) ==> sq == alg_square(an@, size.0 as int),
    {
        let chars = chars_of(an);
        Square::alg_from_chars(&chars, size)
    }

    /// Reads a square in algebraic notation, given as characters.
    pub fn alg_from_chars(chars: &Vec<char>, size: (u16, u16)) -> (r: Result<Square, InvalidAlg>)
        ensures
            r is Ok <==> is_alg(chars@, size.0 as int, size.1 as int),
            r matches Ok(sq) ==> sq == alg_square(chars@, size.0 as int),
    {
        if chars.len() < 2 {
            return Err(InvalidAlg);
        }
        let c0 = chars[0];
        if !(97 <= c0 as u32 && c0 as u32 <= 122) || c0 as u32 - 97 >= size.1 as u32 {
            return Err(InvalidAlg);
        }
        if chars[1] as u32 == 48 {
            return Err(InvalidAlg);
        }
        let digits = suffix(chars, 1);
        assert(digits@[0] == chars@[1]);
        match parse_bounded(&digits, size.0 as u32) {
            Some(v) => {
                if v == 0 {
                    Err(InvalidAlg)
                } else {
                    Ok(Square(size.0 as i32 - v as i32, (c0 as u32 - 97) as i32))
                }
            },
            None => Err(InvalidAlg),
        }
    }

    /// Reads a square of the 8×8 board in algebraic notation that is known
    /// to be well formed.
    pub fn from_alg(an: &str) -> (r: Square)
        requires
            is_alg(an@, 8, 8),
        ensures
            r == alg_square(an@, 8),
    {
        match Square::try_from_alg(an, (8, 8)) {
            Ok(sq) => sq,
            Err(_) => Square(0, 0),
        }
    }
}

/// Encoding a square of the 8×8 board and reading it back gives the square.
pub proof fn lemma_alg_round_trip_square(sq: Square)
    requires
        sq.spec_in_bounds(),
    ensures
        is_alg(alg_of(sq), 8, 8),
        alg_square(alg_of(sq), 8) == sq,
{
    let s = alg_of(sq);
    let t = s.skip(1);
    assert(t =~= seq![digit_char(8 - sq.0)]);
    assert(t.drop_last() =~= Seq::<char>::empty());
    assert(decimal_value(Seq::<char>::empty()) == 0);
    assert(t.last() as u32 == 48 + 8 - sq.0);
    assert(decimal_value(t) == 8 - sq.0);
}

/// Reading well-formed notation of the 8×8 board and encoding the square
/// gives the same text.
pub proof fn lemma_alg_round_trip_text(s: Seq<char>)
    requires
        is_alg(s, 8, 8),
    ensures
        alg_of(alg_square(s, 8)) == s,
{
    let t = s.skip(1);
    if t.len() >= 2 {
        assert(t[0] == s[1]);
        lemma_decimal_two_digits(t);
    }
    assert(t.len() == 1);
    assert(t.drop_last() =~= Seq::<char>::empty());
    assert(is_digit(t[0]));
    assert(decimal_value(Seq::<char>::empty()) == 0);
    assert(decimal_value(t) == digit_value(t[0]));
    let sq = alg_square(s, 8);
    assert(sq.0 == 8 - digit_value(s[1]));
    assert(digit_char(8 - sq.0) as u32 == s[1] as u32);
    assert(file_char(sq.1 as int) as u32 == s[0] as u32);
    assert(s.len() == 2);
    lemma_char_eq(alg_of(sq)[0], s[0]);
    lemma_char_eq(alg_of(sq)[1], s[1]);
    assert(s =~= alg_of(alg_square(s, 8)));
}

} // verus!
