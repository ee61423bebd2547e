//! The record of a game: each state reached, with the joint action that led
//! to it.

use std::collections::HashMap;
use vstd::prelude::*;

use super::simulator::{Action, State};

verus! {

/// One item of the record: a state, or the actions that the players took,
/// by player number.
pub enum HistoryNode<S: State, A: Action> {
    State(S),
    Actions(HashMap<usize, A>),
}

/// Keeps track of the states of a game and of the actions between them. The
/// record is a list of entries, oldest first. An entry is a state together
/// with the actions that led to it. The entry of the state that a game
/// began in has no actions.
pub struct History<S: State, A: Action> {
    nodes: Vec<HistoryNode<S, A>>,
}

impl<S: State, A: Action> History<S, A> {
    /// Whether the record is in order: the actions of each entry come first,
    /// its state next.
    pub closed spec fn wf(&self) -> bool {
        &&& self.nodes.len() % 2 == 0
        &&& forall|i: int|
            0 <= i < self.nodes.len() ==> ((#[trigger] self.nodes[i]) is Actions <==> i % 2 == 0)
    }

    /// The number of entries.
    pub closed spec fn len(&self) -> nat {
        (self.nodes.len() / 2) as nat
    }

    /// The state of entry `i`.
    pub closed spec fn state_at(&self, i: int) -> S {
        self.nodes[2 * i + 1]->State_0
    }

    /// The actions of entry `i`: those that led to its state.
    pub closed spec fn actions_at(&self, i: int) -> Map<usize, A> {
        self.nodes[2 * i]->Actions_0@
    }

    /// Whether `self` has the entries of `before` and one more after them,
    /// made of `state` and `actions`.
    pub open spec fn extends(&self, before: &Self, state: S, actions: Map<usize, A>) -> bool {
        &&& self.len() == before.len() + 1
        &&& forall|i: int|
            #![trigger self.state_at(i)]
            #![trigger before.state_at(i)]
            0 <= i < before.len() ==> self.state_at(i) == before.state_at(i)
        &&& forall|i: int|
            #![trigger self.actions_at(i)]
            #![trigger before.actions_at(i)]
            0 <= i < before.len() ==> self.actions_at(i) == before.actions_at(i)
        &&& self.state_at(before.len() as int) == state
        &&& self.actions_at(before.len() as int) == actions
    }

    /// Create a new history with an initial state: one entry, with no
    /// actions.
    pub fn new(initial_state: S) -> (history: Self)
        ensures
            history.wf(),
            history.len() == 1,
            history.state_at(0) == initial_state,
            history.actions_at(0) == Map::<usize, A>::empty(),
    {
        let mut nodes: Vec<HistoryNode<S, A>> = Vec::new();
        nodes.push(HistoryNode::Actions(HashMap::new()));
        nodes.push(HistoryNode::State(initial_state));
        History { nodes }
    }

    /// Add the next state and the actions taken by each agent to arrive at
    /// that state.
    pub fn push(&mut self, state: S, actions: HashMap<usize, A>)
        requires
            old(self).wf(),
        ensures
            final(self).wf(),
            final(self).extends(old(self), state, actions@),
    {
        self.nodes.push(HistoryNode::Actions(actions));
        self.nodes.push(HistoryNode::State(state));
    }

    /// Add the next state and the actions taken by each agent to arrive at
    /// that state.
    pub fn add(&mut self, state: S, actions: HashMap<usize, A>)
        requires
            old(self).wf(),
        ensures
            final(self).wf(),
            final(self).extends(old(self), state, actions@),
    {
        self.push(state, actions);
    }

    /// Remove the last state and actions from the history. The entry of
    /// the initial state cannot be removed.
    pub fn pop(&mut self)
        requires
            old(self).wf(),
            old(self).len() >= 2,
        ensures
            final(self).wf(),
            old(self).extends(
                final(self),
                old(self).state_at(old(self).len() - 1),
                old(self).actions_at(old(self).len() - 1),
            ),
    {
        self.nodes.pop();
        self.nodes.pop();
    }

    /// The last state, and the actions that led to it. No actions are
    /// given for the only entry of a record where that entry has none: that
    /// is the state that the game began in.
    pub fn peek(&self) -> (last: (&S, Option<&HashMap<usize, A>>))
        requires
            self.wf(),
            self.len() >= 1,
        ensures
            *last.0 == self.state_at(self.len() - 1),
            last.1 is None <==> self.len() == 1 && self.actions_at(0).is_empty(),
            last.1 is Some ==> last.1->0@ == self.actions_at(self.len() - 1),
    {
        let count: usize = self.nodes.len();
        let state: &S = match &self.nodes[count - 1] {
            HistoryNode::State(state) => state,
            _ => vstd::pervasive::unreached(),
        };
        let actions: Option<&HashMap<usize, A>> = match &self.nodes[count - 2] {
            HistoryNode::Actions(actions) => if count == 2 && actions.is_empty() {
                None
            } else {
                Some(actions)
            },
            _ => vstd::pervasive::unreached(),
        };
        (state, actions)
    }

    /// Empties the record.
    pub fn clear(&mut self)
        ensures
            final(self).wf(),
            final(self).len() == 0,
    {
        self.nodes.clear();
    }
}

/// The actions of a joint action by the number of the player who takes
/// them: an entry for each player who is given an action, and none for the
/// others.
pub open spec fn by_player<A>(actions: Seq<Option<A>>) -> Map<usize, A> {
    Map::new(
        |player: usize| player < actions.len() && actions[player as int] is Some,
        |player: usize| actions[player as int]->0,
    )
}

/// Turns a joint action into the form in which the history keeps it.
pub fn actions_by_player<A: Action>(actions: Vec<Option<A>>) -> (recorded: HashMap<usize, A>)
    ensures
        recorded@ == by_player(actions@),
{
    broadcast use vstd::std_specs::hash::axiom_usize_obeys_hash_table_key_model;
    broadcast use vstd::std_specs::hash::axiom_random_state_builds_valid_hashers;

    let ghost all = actions@;
    let mut rest: Vec<Option<A>> = actions;
    let mut recorded: HashMap<usize, A> = HashMap::new();
    while rest.len() > 0
        invariant
            rest.len() <= all.len(),
            rest@ == all.take(rest.len() as int),
            forall|player: usize|
                recorded@.contains_key(player) <==> rest.len() <= player < all.len()
                    && all[player as int] is Some,
            forall|player: usize|
                recorded@.contains_key(player) ==> recorded@[player] == all[player as int]->0,
        decreases rest.len(),
    {
        let last: Option<Option<A>> = rest.pop();
        let player: usize = rest.len();
        assert(rest@ =~= all.take(rest.len() as int));
        match last {
            Some(Some(action)) => {
                recorded.insert(player, action);
            },
            _ => {},
        }
    }
    assert(recorded@ =~= by_player(all));
    recorded
}

} // verus!
