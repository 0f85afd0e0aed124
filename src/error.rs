//! Errors of board construction and of square notation.

use vstd::prelude::*;

verus! {

/// Malformed square notation: too short, a digit before the letter, or a
/// letter or number outside the board.
#[derive(Clone, Copy, PartialEq, Eq, Structural, Debug)]
pub struct InvalidAlg;

/// Why a board could not be built.
#[derive(Clone, Copy, PartialEq, Eq, Structural, Debug)]
pub enum BoardError {
    /// Fewer (or more) king squares were supplied than there are teams.
    NotEnoughKings,
    /// Well-formed, but not a chess position: a team has no king or two kings,
    /// or the grid is not a full board.
    IllegalPosition,
    /// A position string that cannot be read.
    InvalidFen,
    /// The round counter is zero; rounds start at one.
    RoundIsZero,
    /// A failure that no input is known to cause; no function of this
    /// library returns it.
    UnknownError,
}

impl BoardError {
    /// A human-readable description of the error.
    pub fn message(&self) -> (r: String)
        ensures
            r@ == (match self {
                BoardError::NotEnoughKings => "Not enough kings on the board"@,
                BoardError::IllegalPosition => "Illegal position"@,
                BoardError::InvalidFen => "Invalid fen"@,
                BoardError::RoundIsZero => "Round is 0 (needs to be 1 or higher)"@,
                BoardError::UnknownError => "Unknown error (please report)"@,
            }),
    {
        match self {
            BoardError::NotEnoughKings => String::from_str("Not enough kings on the board"),
            BoardError::IllegalPosition => String::from_str("Illegal position"),
            BoardError::InvalidFen => String::from_str("Invalid fen"),
            BoardError::RoundIsZero => String::from_str("Round is 0 (needs to be 1 or higher)"),
            BoardError::UnknownError => String::from_str("Unknown error (please report)"),
        }
    }
}

impl InvalidAlg {
    /// A human-readable description of the error.
    pub fn message(&self) -> (r: String)
        ensures
            r@ == "Invalid algebraic notation"@,
    {
        String::from_str("Invalid algebraic notation")
    }
}

} // verus!
