//! Rules of standard chess: piece geometry, board occupancy, and the game
//! state machine that accepts or rejects moves and derives check, checkmate
//! and stalemate.
//!
//! `pieces` says where a piece can go on an empty board, `board` holds the
//! 64 squares, and `game` decides which moves are legal and what they do.
//! `game::rules` states the rules as mathematical functions, which the
//! functions of `GameState` are proved to compute, and `game::laws` proves
//! what follows from them for whole games. `app` adds the selection of a
//! square to the state of a game, for a front end that works by clicks.

pub mod app;
pub mod board;
pub mod game;
pub mod pieces;
