//! Chess pieces and the squares they can reach on an empty board.

pub mod piece;
pub mod piece_type;

pub use piece::{Piece, PieceColor};
pub use piece_type::PieceType;
