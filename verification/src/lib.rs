//! A falling-block puzzle on a fixed grid: piece geometry, board mechanics
//! and the rules of one game, each stated as a contract over sequences of
//! cells and proved.

pub mod grid;
pub mod piece;
pub mod game;
pub mod random;
pub mod play;
pub mod text;
pub mod render;
