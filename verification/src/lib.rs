//! A small framework for two-player, finite, perfect-information games:
//! rules engines, position evaluators and move-selection strategies, with a
//! bitboard engine for the 3x3 grid game as the reference rules engine.

pub mod bitboard;
pub mod board;
pub mod driver;
pub mod evaluate;
pub mod game;
pub mod strategy;
pub mod tic_tac_toe;
