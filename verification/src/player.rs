//! The players of a game, each with a number and an agent.

use vstd::prelude::*;

use crate::engine::agent::{IoAgent, RandomAgent};

verus! {

/// A player of a game.
pub trait Player {
    /// The number that the player has in the game. A player states its own
    /// by overriding this.
    open spec fn id(&self) -> usize {
        0
    }

    /// Gives the player's number.
    fn get_id(&self) -> (id: usize)
        ensures
            id == self.id(),
    ;
}

/// A player for whom a person chooses.
pub struct HumanPlayer {
    id: usize,
    pub agent: IoAgent,
}

impl HumanPlayer {
    /// The agent through which the player chooses.
    pub closed spec fn chooser(&self) -> IoAgent {
        self.agent
    }

    /// The player with the number `id`, who chooses through `agent`.
    pub fn new(id: usize, agent: IoAgent) -> (player: Self)
        ensures
            player.id() == id,
            player.chooser() == agent,
    {
        HumanPlayer { id, agent }
    }
}

impl Player for HumanPlayer {
    closed spec fn id(&self) -> usize {
        self.id
    }

    fn get_id(&self) -> (id: usize) {
        self.id
    }
}

/// A player who chooses at random.
pub struct RandomPlayer {
    id: usize,
    pub agent: RandomAgent,
}

impl RandomPlayer {
    /// The agent through which the player chooses.
    pub closed spec fn chooser(&self) -> RandomAgent {
        self.agent
    }

    /// The player with the number `id`, who chooses through `agent`.
    pub fn new(id: usize, agent: RandomAgent) -> (player: Self)
        ensures
            player.id() == id,
            player.chooser() == agent,
    {
        RandomPlayer { id, agent }
    }
}

impl Player for RandomPlayer {
    closed spec fn id(&self) -> usize {
        self.id
    }

    fn get_id(&self) -> (id: usize) {
        self.id
    }
}

} // verus!
