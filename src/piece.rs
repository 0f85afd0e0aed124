//! Pieces of the classical set and the capability interface for piece sets.

use vstd::prelude::*;
use crate::square::Team;

verus! {

/// The six kinds of the classical piece set.
#[derive(Clone, Copy, PartialEq, Eq, Structural, Debug, Hash)]
pub enum ClassicalPieceKind {
    King,
    Queen,
    Rook,
    Bishop,
    Knight,
    Pawn,
}

/// A piece of the classical set: its kind and the team that owns it.
#[derive(Clone, Copy, PartialEq, Eq, Structural, Debug, Hash)]
pub struct ClassicalPiece {
    pub kind: ClassicalPieceKind,
    pub team: Team,
}

/// One axis of a direction: towards higher indices, lower indices, or neither.
#[derive(Clone, Copy, PartialEq, Eq, Structural, Debug)]
pub enum DirScale {
    Plus,
    Minus,
    Neutral,
}

impl DirScale {
    /// The change of index along this axis per step.
    pub open spec fn sign(self) -> int {
        match self {
            DirScale::Plus => 1,
            DirScale::Minus => -1,
            DirScale::Neutral => 0,
        }
    }
}

/// A direction on the board: its rank axis, then its file axis.
#[derive(Clone, Copy, PartialEq, Eq, Structural, Debug)]
pub struct Direction(pub DirScale, pub DirScale);

/// What the board needs to know of a piece of any piece set: its
/// orientation, whom it may capture, whether it is its team's king, and its
/// team as a small integer.
pub trait Piece: Copy + Sized {
    /// The direction in which the piece advances.
    fn forwards(&self) -> Direction;

    /// The direction that counts as sideways for the piece.
    fn sideways(&self) -> Direction;

    /// Whether this piece may capture `other`.
    fn can_kill(&self, other: &Self) -> bool;

    /// Whether this piece is its team's king.
    fn is_king(&self) -> bool;

    /// The identifier of the piece's team.
    fn team_id(&self) -> u16;
}

/// The identifier of a team of the classical game: 0 for White, 1 for Black.
pub open spec fn team_number(team: Team) -> u16 {
    match team {
        Team::White => 0,
        Team::Black => 1,
    }
}

impl ClassicalPiece {
    /// A piece of `kind` owned by `team`.
    pub fn new(team: Team, kind: ClassicalPieceKind) -> (r: ClassicalPiece)
        ensures
            r == (ClassicalPiece { kind, team }),
    {
        ClassicalPiece { kind, team }
    }

    /// The team that owns the piece.
    pub fn get_team(&self) -> (r: Team)
        ensures
            r == self.team,
    {
        self.team
    }
}

impl Piece for ClassicalPiece {
    fn forwards(&self) -> (r: Direction)
        ensures
            r.0.sign() == self.team.forward_sign(),
            r.1 == DirScale::Neutral,
    {
        match self.team {
            Team::White => Direction(DirScale::Minus, DirScale::Neutral),
            Team::Black => Direction(DirScale::Plus, DirScale::Neutral),
        }
    }

    fn sideways(&self) -> (r: Direction)
        ensures
            r == Direction(DirScale::Neutral, DirScale::Plus),
    {
        Direction(DirScale::Neutral, DirScale::Plus)
    }

    fn can_kill(&self, other: &Self) -> (r: bool)
        ensures
            r == (self.team != other.team),
    {
        self.team != other.team
    }

    fn is_king(&self) -> (r: bool)
        ensures
            r == (self.kind == ClassicalPieceKind::King),
    {
        self.kind == ClassicalPieceKind::King
    }

    fn team_id(&self) -> (r: u16)
        ensures
            r == team_number(self.team),
    {
        match self.team {
            Team::White => 0,
            Team::Black => 1,
        }
    }
}

/// The kind that a letter of a position string names, whatever its case.
pub open spec fn kind_of_letter(c: char) -> Option<ClassicalPieceKind> {
    if c == 'k' || c == 'K' {
        Some(ClassicalPieceKind::King)
    } else if c == 'q' || c == 'Q' {
        Some(ClassicalPieceKind::Queen)
    } else if c == 'r' || c == 'R' {
        Some(ClassicalPieceKind::Rook)
    } else if c == 'b' || c == 'B' {
        Some(ClassicalPieceKind::Bishop)
    } else if c == 'n' || c == 'N' {
        Some(ClassicalPieceKind::Knight)
    } else if c == 'p' || c == 'P' {
        Some(ClassicalPieceKind::Pawn)
    } else {
        None
    }
}

/// The piece that a letter of a position string stands for: uppercase for
/// White, lowercase for Black.
pub open spec fn piece_of_char(c: char) -> Option<ClassicalPiece> {
    match kind_of_letter(c) {
        Some(kind) => Some(
            ClassicalPiece { kind, team: if 97 <= c as u32 <= 122 { Team::Black } else { Team::White } },
        ),
        None => None,
    }
}

/// Reads one piece letter of a position string.
pub fn fen_char(ch: char) -> (r: Option<ClassicalPiece>)
    ensures
        r == piece_of_char(ch),
{
    let team = if 97 <= ch as u32 && ch as u32 <= 122 {
        Team::Black
    } else {
        Team::White
    };
    let kind = if ch == 'k' || ch == 'K' {
        ClassicalPieceKind::King
    } else if ch == 'q' || ch == 'Q' {
        ClassicalPieceKind::Queen
    } else if ch == 'r' || ch == 'R' {
        ClassicalPieceKind::Rook
    } else if ch == 'b' || ch == 'B' {
        ClassicalPieceKind::Bishop
    } else if ch == 'n' || ch == 'N' {
        ClassicalPieceKind::Knight
    } else if ch == 'p' || ch == 'P' {
        ClassicalPieceKind::Pawn
    } else {
        return None;
    };
    Some(ClassicalPiece { kind, team })
}

} // verus!
