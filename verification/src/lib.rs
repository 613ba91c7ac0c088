//! A one-ply tic-tac-toe engine: a 3x3 board that can be loaded from and
//! written back to a nine-character encoding, that knows whether the game is
//! over, and that places one mark for the automated side when it is not.

pub mod board;
pub mod cell;
mod chance;
pub mod encoding;
pub mod laws;
pub mod rules;
