//! A generic engine for turn-based games of perfect information, with the
//! rules of Connect Four and of a dice scoring game built on it.
//!
//! Every function in this crate carries a contract, and every contract is
//! proved, except for three calls into code that is not this crate's: two
//! into the random number generator and one that trims a text. They are
//! marked as such where they stand.

pub mod text;
pub mod engine;
pub mod domains;
pub mod player;
