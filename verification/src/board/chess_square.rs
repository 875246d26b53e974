use crate::pieces::piece::Piece;
use vstd::prelude::*;

verus! {

/// One square of the board: its shade and the piece on it, if any.
pub struct ChessSquare {
    pub is_light: bool,
    pub piece: Option<Piece>,
}

impl ChessSquare {
    /// A square of the given shade holding the given piece.
    pub fn new(is_light: bool, piece: Option<Piece>) -> (square: Self)
        ensures
            square.is_light == is_light,
            square.piece == piece,
    {
        Self { is_light, piece }
    }
}

} // verus!
