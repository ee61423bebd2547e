//! One round of a game: every player who can move is asked for an action,
//! and the joint action is applied.

use vstd::prelude::*;

use super::agent::Agent;
use super::simulator::{Action, LegalActions, Simulator, State};

verus! {

/// Asks the agent of each player who can move in `state` for an action, and
/// gives the joint action: the action selected for each such player, and
/// none for the others. `agents` holds the agent of each player, in player
/// order.
pub fn select_joint_action<S, A, I, G>(simulator: &mut I, agents: &mut Vec<G>, state: &S) -> (actions:
    Vec<Option<A>>) where S: State, A: Action, I: Simulator<S, A>, G: Agent
    requires
        old(simulator).inv(),
        I::valid_state(state),
        old(agents).len() == I::legal_actions(state).len(),
    ensures
        final(simulator).inv(),
        final(agents).len() == old(agents).len(),
        super::simulator::allowed(I::legal_actions(state), actions@),
{
    let player_legal_actions: Vec<LegalActions<A>> = simulator.calculate_legal_actions(state);
    let players: usize = player_legal_actions.len();
    let ghost legal = I::legal_actions(state);
    let mut selected_actions: Vec<Option<A>> = Vec::new();
    let mut player_id: usize = 0;
    while player_id < players
        invariant
            simulator.inv(),
            I::valid_state(state),
            legal == I::legal_actions(state),
            super::simulator::holds_sets(player_legal_actions@, legal),
            players == legal.len(),
            agents.len() == players,
            player_id <= players,
            selected_actions.len() == player_id,
            forall|p: int|
                0 <= p < player_id ==> !#[trigger] super::simulator::misplaced(
                    legal,
                    selected_actions@,
                    p,
                ),
            forall|p: int|
                0 <= p < player_id && (#[trigger] selected_actions[p]) is Some ==> legal[p].contains(
                    selected_actions[p]->0,
                ),
        decreases players - player_id,
    {
        assert(player_legal_actions@[player_id as int]@ == legal[player_id as int]);
        let ghost before = selected_actions@;
        if player_legal_actions[player_id].is_empty() {
            selected_actions.push(None);
        } else {
            let action: A = agents[player_id].select_action(player_id, state, simulator);
            selected_actions.push(Some(action));
        }
        proof {
            assert forall|p: int| 0 <= p < player_id + 1 implies !#[trigger] super::simulator::misplaced(
                legal,
                selected_actions@,
                p,
            ) by {
                if p < player_id {
                    assert(!super::simulator::misplaced(legal, before, p));
                    assert(selected_actions@[p] == before[p]);
                }
            }
            assert forall|p: int|
                0 <= p < player_id + 1 && (#[trigger] selected_actions[p]) is Some implies legal[p].contains(
                selected_actions[p]->0,
            ) by {
                if p < player_id {
                    assert(selected_actions@[p] == before[p]);
                }
            }
        }
        player_id += 1;
    }
    selected_actions
}

/// Plays one round from `state`: asks the agents for their actions and
/// applies the joint action. The state that comes out is one that the rules
/// let follow from `state` by a joint action that they allow.
pub fn play_round<S, A, I, G>(simulator: &mut I, agents: &mut Vec<G>, state: &S) -> (next: S) where
    S: State,
    A: Action,
    I: Simulator<S, A>,
    G: Agent,

    requires
        old(simulator).inv(),
        I::valid_state(state),
        old(agents).len() == I::legal_actions(state).len(),
    ensures
        final(simulator).inv(),
        final(agents).len() == old(agents).len(),
        I::valid_state(&next),
        exists|actions: Seq<Option<A>>|
            super::simulator::allowed(I::legal_actions(state), actions) && #[trigger] I::may_follow(
                state,
                actions,
                &next,
            ),
{
    let selected_actions: Vec<Option<A>> = select_joint_action(simulator, agents, state);
    let next: S = simulator.state_transition(state, &selected_actions);
    assert(I::may_follow(state, selected_actions@, &next));
    next
}

} // verus!
