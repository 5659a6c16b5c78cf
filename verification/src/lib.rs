//! Core of a chess rules engine: board representation, pseudo-legal and
//! legal move generation, diff application, and check/mate/stalemate
//! classification. Castling, en passant and draw rules are out of scope.

pub mod board;
pub mod error;
pub mod math;
pub mod pieces;
pub mod render;

pub use board::{Board, Diff, DiffType, GameCondition, Pos, RawBoard};
pub use error::{Error, InvalidDiff, OutOfBounds};
pub use math::Vector;
pub use pieces::{Color, MoveType, Piece, VMove};
