//! The games that the engine knows how to play.

pub mod connect4;
pub mod yahtzee;
