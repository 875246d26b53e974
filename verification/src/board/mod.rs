//! The 8x8 board: which piece stands where, whether a line between two
//! squares is free, and the bare relocation of a piece.

pub mod chess_board;
pub mod chess_square;

pub use chess_board::ChessBoard;
pub use chess_square::ChessSquare;
