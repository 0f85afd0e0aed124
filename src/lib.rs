//! Rules core of a chess engine: board state, coordinates and their
//! algebraic notation, position strings, and generation of legal moves for
//! the classical piece set.

pub mod board;
pub mod error;
pub mod fen;
pub mod moves;
pub mod piece;
pub mod square;
pub mod text;

pub use board::{Board, BoardState, Castles};
pub use error::{BoardError, InvalidAlg};
pub use fen::setup_from_fen;
pub use moves::{PossibleMove, RookMove};
pub use piece::{fen_char, ClassicalPiece, ClassicalPieceKind, DirScale, Direction, Piece};
pub use square::{Square, Team};
