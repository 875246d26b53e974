//! The game itself: whose turn it is, which moves are legal, and what a move
//! does to the board, the castling rights, the move record and the status.

pub mod game_state;
pub mod history;
pub mod laws;
pub mod notation;
pub mod rules;

pub use game_state::{GameState, GameStatus};
