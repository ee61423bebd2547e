//! A dice game for one player: five dice, three rolls to a turn, thirteen
//! categories to score.

pub mod constants;
pub mod yahtzee_score_category;
pub mod yahtzee_action;
pub mod yahtzee_state;
pub mod yahtzee_simulator;
