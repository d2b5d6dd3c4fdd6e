#![verifier::loop_isolation(false)]
//! Decision engine for the 8x8 disc-flipping board game.
//!
//! The board is a pair of 64-bit occupancy masks, one per side; legal moves
//! and their reversal effects are computed by directional bit scans, and moves
//! are chosen by a bounded alpha-beta game-tree search over board values.

pub mod bitboard;
pub mod board;
pub mod board_reverse;
pub mod game;
pub mod game_tree;
pub mod ggf;
pub mod player;
pub mod search_algorithm;
pub mod strategy;

pub use player::Player;
