//! Chess position model built on 64-bit occupancy masks.

pub mod bitboard;
pub mod board;
pub mod game;
pub mod pieces;
