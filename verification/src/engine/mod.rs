//! The parts shared by every game: rewards, legal-action sets, the simulator
//! contract.

pub mod random;
pub mod reward;
pub mod simulator;
pub mod history;
pub mod agent;
pub mod driver;
pub mod initial_state_generator;
