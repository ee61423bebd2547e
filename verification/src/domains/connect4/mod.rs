//! Connect Four on a board of seven columns and six rows, held as two
//! bit-boards.

pub mod constants;
pub mod util;
pub mod connect4_state;
pub mod connect4_action;
pub mod connect4_simulator;
