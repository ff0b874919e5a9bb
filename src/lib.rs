//! A two-player chess rules engine: board state, move generation for every kind
//! of piece, check detection, and the turn cycle with castling, en passant and
//! promotion.

pub mod board;
pub mod error;
pub mod game;
pub mod moves;
pub mod pieces;
pub mod square;
