//! A verified Othello (Reversi) engine.
//!
//! The board is a pair of disjoint 64-bit occupancy masks, one per side.
//! Legal-move generation and capture resolution work by bounded flood
//! fills along the four board axes; the turn machine advances by moves
//! and passes and ends on a full board or a double pass.

pub mod board;
pub mod game;
