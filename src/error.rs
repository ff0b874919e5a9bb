use vstd::prelude::*;

verus! {

/// Why an operation of the engine was refused.
#[derive(Clone, Copy, PartialEq, Eq, Debug, Structural)]
pub enum ChessError {
    /// A piece was placed on a square that already holds one.
    OccupiedSquare,
    /// A move was asked from a square that holds no piece.
    EmptySource,
    /// A selection was asked on a square that holds no piece.
    NoPieceFound,
    /// The selected piece does not belong to the side to move.
    NotYourTurn,
    /// The destination is not among the moves found at selection.
    InvalidMove,
    /// A coordinate lies outside the board.
    OutOfBounds,
}

impl ChessError {
    /// A short message for the error.
    pub fn message(&self) -> (r: &'static str) {
        match self {
            ChessError::OccupiedSquare => "square is not empty",
            ChessError::EmptySource => "square is empty",
            ChessError::NoPieceFound => "no piece found",
            ChessError::NotYourTurn => "not your turn",
            ChessError::InvalidMove => "invalid move",
            ChessError::OutOfBounds => "position is outside the board",
        }
    }
}

} // verus!
