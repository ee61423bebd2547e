//! The contract between a game and whoever plays it: states, actions, the
//! set of actions open to a player, and the simulator that knows the rules.

use std::fmt::Debug;
use std::hash::Hash;
use vstd::prelude::*;
use vstd::string::StringExecFns;

use super::reward::Reward;
use crate::text::decimal_text;

verus! {

/// A move that a player can make. Two actions are equal exactly when they
/// are the same move, however they are shown.
pub trait Action: Clone + Debug + Hash + Eq {
    /// The text that shows this action to a player. A type of actions
    /// states its own by overriding this.
    open spec fn text(&self) -> Seq<char> {
        Seq::empty()
    }

    /// Whether `self` and `other` are the same move.
    fn same(&self, other: &Self) -> (same: bool)
        ensures
            same == (*self == *other),
    ;

    /// Renders the action for display.
    fn to_string(&self) -> (rendered: String)
        ensures
            rendered@ == self.text(),
    ;
}

/// A position of a game.
pub trait State: Clone + Debug + Hash + Eq {
    /// The text that shows this position to a player. A type of states
    /// states its own by overriding this.
    open spec fn text(&self) -> Seq<char> {
        Seq::empty()
    }

    /// Renders the position for display.
    fn to_string(&self) -> (rendered: String)
        ensures
            rendered@ == self.text(),
    ;
}

/// The actions that one player may take from one state. It is a set: an
/// action is a member or it is not, and adding a member again changes
/// nothing. The members are kept in a listing, of whose order nothing is
/// promised.
#[derive(Clone)]
pub struct LegalActions<A>(Vec<A>);

/// The text of the actions `listing[from..]`, one action to a line.
pub open spec fn lines_from<A: Action>(listing: Seq<A>, from: int) -> Seq<char>
    decreases listing.len() - from,
{
    if 0 <= from < listing.len() {
        listing[from].text() + seq!['\n'] + lines_from(listing, from + 1)
    } else {
        Seq::empty()
    }
}

/// The text of the actions `listing[..upto]`, one action to a line.
pub open spec fn lines_upto<A: Action>(listing: Seq<A>, upto: int) -> Seq<char>
    decreases upto,
{
    if 0 < upto <= listing.len() {
        lines_upto(listing, upto - 1) + listing[upto - 1].text() + seq!['\n']
    } else {
        Seq::empty()
    }
}

impl<A> View for LegalActions<A> {
    type V = Set<A>;

    closed spec fn view(&self) -> Set<A> {
        self.0@.to_set()
    }
}

impl<A> LegalActions<A> {
    /// The members in the order in which `get`, `iter` and `to_string` go
    /// through them.
    pub closed spec fn listing(&self) -> Seq<A> {
        self.0@
    }

    /// Where no member is listed twice, the listing is as long as the set
    /// is large.
    pub proof fn lemma_listing(&self)
        requires
            self.is_set(),
        ensures
            self.listing().no_duplicates(),
            self.listing().to_set() == self@,
            self@.finite(),
            self@.len() == self.listing().len(),
    {
        self.0@.unique_seq_to_set();
        vstd::seq_lib::seq_to_set_is_finite(self.0@);
    }

    /// The members are the items of the listing.
    pub proof fn lemma_members_are_listed(&self)
        ensures
            forall|a: A| self@.contains(a) <==> self.listing().contains(a),
            self@.finite(),
    {
        vstd::seq_lib::seq_to_set_is_finite(self.0@);
    }

    /// Whether no member is listed twice. It holds of every set that was
    /// built by `new` and `insert`.
    pub closed spec fn is_set(&self) -> bool {
        self.0@.no_duplicates()
    }
}

impl<A: Action> LegalActions<A> {
    /// An empty set of actions.
    pub fn new() -> (actions: Self)
        ensures
            actions@ == Set::<A>::empty(),
            actions.is_set(),
    {
        let actions = LegalActions(Vec::new());
        assert(actions.0@.to_set() =~= Set::<A>::empty());
        actions
    }

    /// Whether `action` is a member.
    pub fn contains(&self, action: &A) -> (found: bool)
        ensures
            found == self@.contains(*action),
    {
        let mut i: usize = 0;
        while i < self.0.len()
            invariant
                i <= self.0.len(),
                forall|j: int| 0 <= j < i ==> self.0@[j] != *action,
            decreases self.0.len() - i,
        {
            if self.0[i].same(action) {
                assert(self.0@.contains(*action));
                return true;
            }
            i += 1;
        }
        false
    }

    /// Adds `action` to the set. Nothing changes if it is a member already.
    pub fn insert(&mut self, action: A)
        ensures
            final(self)@ == old(self)@.insert(action),
            old(self).is_set() ==> final(self).is_set(),
    {
        if !self.contains(&action) {
            proof {
                self.0@.lemma_push_to_set_commute(action);
            }
            self.0.push(action);
        } else {
            assert(self@.insert(action) =~= self@);
        }
    }

    /// Whether the set has no member.
    pub fn is_empty(&self) -> (empty: bool)
        ensures
            empty == (self@ == Set::<A>::empty()),
            empty == (self.listing().len() == 0),
    {
        proof {
            if self.0@.len() > 0 {
                assert(self@.contains(self.0@[0]));
            } else {
                assert(self@ =~= Set::<A>::empty());
            }
        }
        self.0.is_empty()
    }

    /// The length of the listing, which is the number of members where no
    /// member is listed twice.
    pub fn len(&self) -> (count: usize)
        ensures
            count == self.listing().len(),
            self.is_set() ==> count == self@.len(),
    {
        proof {
            if self.is_set() {
                self.lemma_listing();
            }
        }
        self.0.len()
    }

    /// The member at place `index` of the listing.
    pub fn get(&self, index: usize) -> (action: &A)
        requires
            index < self.listing().len(),
        ensures
            *action == self.listing()[index as int],
            self@.contains(*action),
    {
        assert(self.0@.contains(self.0@[index as int]));
        &self.0[index]
    }

    /// Goes through the members in the order of the listing.
    pub fn iter(&self) -> (iter: std::slice::Iter<'_, A>)
        ensures
            vstd::std_specs::slice::into_iter_elts(iter) == self.listing(),
    {
        let members: &[A] = self.0.as_slice();
        let iter = members.iter();
        proof {
            vstd::std_specs::slice::axiom_spec_slice_iter(members);
            assert(vstd::std_specs::slice::into_iter_elts(iter) =~= self.0@);
        }
        iter
    }

    /// The text of the set: an opening bracket on a line of its own, each
    /// member on a line of its own, and a closing bracket.
    pub open spec fn text(&self) -> Seq<char> {
        seq!['[', '\n'] + lines_from(self.listing(), 0) + seq![']']
    }

    /// Renders the set for display.
    pub fn to_string(&self) -> (rendered: String)
        ensures
            rendered@ == self.text(),
    {
        proof {
            reveal_strlit("[\n");
            reveal_strlit("\n");
            reveal_strlit("]");
        }
        let mut rendered: String = String::from_str("[\n");
        let mut i: usize = 0;
        assert(rendered@ =~= seq!['[', '\n'] + lines_upto(self.listing(), 0));
        while i < self.0.len()
            invariant
                i <= self.0.len(),
                self.listing() == self.0@,
                rendered@ == seq!['[', '\n'] + lines_upto(self.listing(), i as int),
            decreases self.0.len() - i,
        {
            proof {
                reveal_strlit("\n");
            }
            let line: String = self.0[i].to_string();
            rendered.append(line.as_str());
            rendered.append("\n");
            i += 1;
            assert(rendered@ =~= seq!['[', '\n'] + lines_upto(self.listing(), i as int));
        }
        rendered.append("]");
        proof {
            lemma_lines_agree(self.listing(), 0);
            assert(rendered@ =~= self.text());
        }
        rendered
    }

    /// Takes the member at place `index` of the listing out of the set and
    /// gives it to the caller.
    pub fn take(self, index: usize) -> (action: A)
        requires
            index < self.listing().len(),
        ensures
            action == self.listing()[index as int],
            self@.contains(action),
    {
        assert(self.0@.contains(self.0@[index as int]));
        let mut members: Vec<A> = self.0;
        members.swap_remove(index)
    }
}

impl<A: Action + Copy> LegalActions<A> {
    /// A copy of the set, with the same members in the same listing.
    pub fn duplicate(&self) -> (copy: Self)
        ensures
            copy@ == self@,
            copy.listing() == self.listing(),
            copy.is_set() == self.is_set(),
    {
        let mut members: Vec<A> = Vec::new();
        let mut i: usize = 0;
        while i < self.0.len()
            invariant
                i <= self.0.len(),
                members@ == self.0@.take(i as int),
            decreases self.0.len() - i,
        {
            members.push(self.0[i]);
            i += 1;
            assert(members@ =~= self.0@.take(i as int));
        }
        assert(members@ =~= self.0@);
        LegalActions(members)
    }
}

/// A copy of each player's set, in player order.
pub fn duplicate_all<A: Action + Copy>(sets: &Vec<LegalActions<A>>) -> (copies: Vec<
    LegalActions<A>,
>)
    ensures
        copies.len() == sets.len(),
        forall|p: int| 0 <= p < sets.len() ==> (#[trigger] copies[p])@ == sets[p]@,
        forall|p: int| 0 <= p < sets.len() ==> (#[trigger] copies[p]).is_set() == sets[p].is_set(),
{
    let mut copies: Vec<LegalActions<A>> = Vec::new();
    let mut p: usize = 0;
    while p < sets.len()
        invariant
            p <= sets.len(),
            copies.len() == p,
            forall|q: int| 0 <= q < p ==> (#[trigger] copies[q])@ == sets[q]@,
            forall|q: int| 0 <= q < p ==> (#[trigger] copies[q]).is_set() == sets[q].is_set(),
        decreases sets.len() - p,
    {
        copies.push(sets[p].duplicate());
        p += 1;
    }
    copies
}

/// Going through a listing from the front or from the back gives one text.
pub proof fn lemma_lines_agree<A: Action>(listing: Seq<A>, from: int)
    requires
        0 <= from <= listing.len(),
    ensures
        lines_upto(listing, from) + lines_from(listing, from) == lines_upto(
            listing,
            listing.len() as int,
        ),
    decreases listing.len() - from,
{
    if from < listing.len() {
        lemma_lines_agree(listing, from + 1);
        assert(lines_upto(listing, from) + lines_from(listing, from) =~= lines_upto(
            listing,
            from + 1,
        ) + lines_from(listing, from + 1));
    } else {
        assert(lines_upto(listing, from) + lines_from(listing, from) =~= lines_upto(listing, from));
    }
}

/// Whether `given` holds, player by player, exactly the sets `legal`.
pub open spec fn holds_sets<A>(given: Seq<LegalActions<A>>, legal: Seq<Set<A>>) -> bool {
    &&& given.len() == legal.len()
    &&& forall|p: int| 0 <= p < given.len() ==> (#[trigger] given[p])@ == legal[p]
    &&& forall|p: int| 0 <= p < given.len() ==> (#[trigger] given[p]).is_set()
}

/// Whether no player has a legal action.
pub open spec fn nobody_can_move<A>(legal: Seq<Set<A>>) -> bool {
    forall|p: int| 0 <= p < legal.len() ==> #[trigger] legal[p] == Set::<A>::empty()
}

/// Whether player `p` is wrongly served by `actions`: an action is given to
/// a player who cannot move, or none to a player who can.
pub open spec fn misplaced<A>(legal: Seq<Set<A>>, actions: Seq<Option<A>>, p: int) -> bool {
    (legal[p] == Set::<A>::empty()) != (actions[p] is None)
}

/// Whether `actions` has one entry for each player, an action for each
/// player who can move and none for the others.
pub open spec fn well_shaped<A>(legal: Seq<Set<A>>, actions: Seq<Option<A>>) -> bool {
    &&& actions.len() == legal.len()
    &&& forall|p: int| 0 <= p < legal.len() ==> !#[trigger] misplaced(legal, actions, p)
}

/// Whether `actions` is a joint action that the rules allow: it is well
/// shaped, and each action given is legal for its player.
pub open spec fn allowed<A>(legal: Seq<Set<A>>, actions: Seq<Option<A>>) -> bool {
    &&& well_shaped(legal, actions)
    &&& forall|p: int|
        0 <= p < legal.len() && (#[trigger] actions[p]) is Some ==> legal[p].contains(
            actions[p]->0,
        )
}

/// The complaint about a joint action of the wrong length.
pub open spec fn length_complaint(given: nat, players: nat) -> Seq<char> {
    "actions length is "@ + crate::text::decimal(given) + ", while number of players is "@
        + crate::text::decimal(players)
}

/// The complaint about a player who is wrongly served.
pub open spec fn player_complaint(player: nat) -> Seq<char> {
    "player "@ + crate::text::decimal(player) + " has illegal action"@
}

/// Whether `message` is the complaint about the shape of `actions`: about
/// its length where that is not the number of players, else about the first
/// player who is wrongly served.
pub open spec fn is_shape_complaint<A>(
    legal: Seq<Set<A>>,
    actions: Seq<Option<A>>,
    message: Seq<char>,
) -> bool {
    if actions.len() != legal.len() {
        message == length_complaint(actions.len(), legal.len())
    } else {
        exists|p: int|
            {
                &&& 0 <= p < actions.len()
                &&& #[trigger] misplaced(legal, actions, p)
                &&& forall|q: int| 0 <= q < p ==> !#[trigger] misplaced(legal, actions, q)
                &&& message == player_complaint(p as nat)
            }
    }
}

/// Whether player `p` is given an action by `actions` that is not legal
/// for that player.
pub open spec fn plays_illegally<A>(legal: Seq<Set<A>>, actions: Seq<Option<A>>, p: int) -> bool {
    actions[p] is Some && !legal[p].contains(actions[p]->0)
}

/// The complaint about an action that is not legal: it names the action,
/// the player who is given it and the state.
pub open spec fn illegal_complaint(action: Seq<char>, player: nat, state: Seq<char>) -> Seq<
    char,
> {
    "Illegal action, "@ + action + ", of player "@ + crate::text::decimal(player)
        + ", from state, "@ + state
}

/// Whether `message` is the complaint about a joint action that the rules
/// do not allow: the complaint about its shape where that is wrong, else
/// the complaint about the first player who is given an action that is not
/// legal. `state` is the text of the state.
pub open spec fn is_complaint<A: Action>(
    legal: Seq<Set<A>>,
    actions: Seq<Option<A>>,
    state: Seq<char>,
    message: Seq<char>,
) -> bool {
    if !well_shaped(legal, actions) {
        is_shape_complaint(legal, actions, message)
    } else {
        exists|p: int|
            {
                &&& 0 <= p < actions.len()
                &&& #[trigger] plays_illegally(legal, actions, p)
                &&& forall|q: int| 0 <= q < p ==> !#[trigger] plays_illegally(legal, actions, q)
                &&& message == illegal_complaint(actions[p]->0.text(), p as nat, state)
            }
    }
}

/// The rules of one game. An engine holds no game of its own: what it
/// answers depends on the state it is asked about and on nothing else. It
/// may keep answers in memory to give them faster, which is why its methods
/// take `&mut self`.
///
/// The rules are the six functions that come first. An engine states the
/// rules of its game by overriding them, and its methods are held to them.
/// The players are numbered from 0, and a joint action has one entry for
/// each player, in that order.
pub trait Simulator<S: State, A: Action> {
    /// Whether the answers that the engine has in memory are right.
    open spec fn inv(&self) -> bool {
        true
    }

    /// The states on which the rules are defined.
    open spec fn valid_state(state: &S) -> bool {
        true
    }

    /// The states in which a game may begin.
    open spec fn may_start(state: &S) -> bool {
        true
    }

    /// For each player, the actions open to that player from `state`. A
    /// player whose set is empty does not move in `state`.
    open spec fn legal_actions(state: &S) -> Seq<Set<A>> {
        Seq::empty()
    }

    /// For each player, the reward in `state`.
    open spec fn rewards(state: &S) -> Seq<Reward> {
        Seq::empty()
    }

    /// Whether `next` is a state that the joint action `actions` may lead to
    /// from `state`.
    open spec fn may_follow(state: &S, actions: Seq<Option<A>>, next: &S) -> bool {
        true
    }

    /// Gives a state to begin a game from.
    fn generate_initial_state(&mut self) -> (state: S)
        requires
            old(self).inv(),
        ensures
            final(self).inv(),
            Self::valid_state(&state),
            Self::may_start(&state),
    ;

    /// Gives each player's reward in `state`.
    fn calculate_rewards(&mut self, state: &S) -> (rewards: Vec<Reward>)
        requires
            old(self).inv(),
            Self::valid_state(state),
        ensures
            final(self).inv(),
            rewards@ == Self::rewards(state),
    ;

    /// Gives each player's legal actions from `state`.
    fn calculate_legal_actions(&mut self, state: &S) -> (all: Vec<LegalActions<A>>)
        requires
            old(self).inv(),
            Self::valid_state(state),
        ensures
            final(self).inv(),
            holds_sets(all@, Self::legal_actions(state)),
    ;

    /// Applies the joint action `actions` to `state`. The joint action must
    /// be one that the rules allow: whoever calls this with another has
    /// made a mistake that the engine does not repair. Whoever cannot be
    /// sure calls `try_state_transition`, which refuses such an action.
    fn state_transition(&mut self, state: &S, actions: &Vec<Option<A>>) -> (next: S)
        requires
            old(self).inv(),
            Self::valid_state(state),
            allowed(Self::legal_actions(state), actions@),
        ensures
            final(self).inv(),
            Self::valid_state(&next),
            Self::may_follow(state, actions@, &next),
    ;

    /// The number of players of the game: the number of sets of legal
    /// actions. An engine may answer faster, with the same number.
    fn number_of_players(&mut self, state: &S) -> (players: usize)
        requires
            old(self).inv(),
            Self::valid_state(state),
        ensures
            final(self).inv(),
            players == Self::legal_actions(state).len(),
    {
        self.calculate_legal_actions(state).len()
    }

    /// Checks the shape of a joint action: one entry for each player, an
    /// action for each player who can move and none for the others. The
    /// error names the length where it is wrong, else the first player who
    /// is wrongly served.
    fn check_valid_state_transition(&mut self, state: &S, actions: &Vec<Option<A>>) -> (checked:
        Result<(), String>)
        requires
            old(self).inv(),
            Self::valid_state(state),
        ensures
            final(self).inv(),
            checked is Ok <==> well_shaped(Self::legal_actions(state), actions@),
            checked is Err ==> is_shape_complaint(
                Self::legal_actions(state),
                actions@,
                checked->Err_0@,
            ),
    {
        let all_legal_actions = self.calculate_legal_actions(state);
        let players: usize = all_legal_actions.len();
        if actions.len() != players {
            let mut complaint: String = String::from_str("actions length is ");
            complaint.append(decimal_text(actions.len() as u64).as_str());
            complaint.append(", while number of players is ");
            complaint.append(decimal_text(players as u64).as_str());
            return Err(complaint);
        }
        let ghost legal = Self::legal_actions(state);
        let mut player_id: usize = 0;
        while player_id < players
            invariant
                self.inv(),
                player_id <= players,
                players == actions.len(),
                players == all_legal_actions.len(),
                legal == Self::legal_actions(state),
                holds_sets(all_legal_actions@, legal),
                forall|q: int| 0 <= q < player_id ==> !#[trigger] misplaced(legal, actions@, q),
            decreases players - player_id,
        {
            let legal_actions = &all_legal_actions[player_id];
            let action = &actions[player_id];
            assert(all_legal_actions@[player_id as int]@ == legal[player_id as int]);
            if (legal_actions.is_empty() && !action.is_none()) || (!legal_actions.is_empty()
                && action.is_none()) {
                let mut complaint: String = String::from_str("player ");
                complaint.append(decimal_text(player_id as u64).as_str());
                complaint.append(" has illegal action");
                assert(misplaced(legal, actions@, player_id as int));
                return Err(complaint);
            }
            player_id += 1;
        }
        Ok(())
    }

    /// Whether the game is over in `state`: no player has a legal action.
    /// An engine may answer faster, with the same answer.
    fn is_terminal_state(&mut self, state: &S) -> (terminal: bool)
        requires
            old(self).inv(),
            Self::valid_state(state),
        ensures
            final(self).inv(),
            terminal <==> nobody_can_move(Self::legal_actions(state)),
    {
        let legal_actions = self.calculate_legal_actions(state);
        let ghost legal = Self::legal_actions(state);
        let mut player_id: usize = 0;
        while player_id < legal_actions.len()
            invariant
                self.inv(),
                player_id <= legal_actions.len(),
                legal == Self::legal_actions(state),
                holds_sets(legal_actions@, legal),
                forall|q: int| 0 <= q < player_id ==> #[trigger] legal[q] == Set::<A>::empty(),
            decreases legal_actions.len() - player_id,
        {
            assert(legal_actions@[player_id as int]@ == legal[player_id as int]);
            if !legal_actions[player_id].is_empty() {
                assert(legal[player_id as int] != Set::<A>::empty());
                return false;
            }
            player_id += 1;
        }
        true
    }
}

/// A query answers by the state alone: two answers to the question for the
/// legal actions of one state hold the same sets, and two answers to the
/// question for its rewards are equal, whatever the engine had in memory.
pub proof fn lemma_queries_repeat<S: State, A: Action, I: Simulator<S, A>>(
    state: S,
    first_actions: Seq<LegalActions<A>>,
    second_actions: Seq<LegalActions<A>>,
    first_rewards: Seq<Reward>,
    second_rewards: Seq<Reward>,
)
    requires
        holds_sets(first_actions, I::legal_actions(&state)),
        holds_sets(second_actions, I::legal_actions(&state)),
        first_rewards == I::rewards(&state),
        second_rewards == I::rewards(&state),
    ensures
        first_actions.len() == second_actions.len(),
        forall|p: int|
            0 <= p < first_actions.len() ==> (#[trigger] first_actions[p])@ == second_actions[p]@,
        first_rewards == second_rewards,
{
}

/// Checks a joint action before it is applied: it must be well shaped, and
/// each action in it must be legal for its player. The error is the
/// complaint about the shape where that is wrong, else the complaint about
/// the first player who is given an action that is not legal.
pub fn check_joint_action<S, A, I>(simulator: &mut I, state: &S, actions: &Vec<Option<A>>) -> (checked:
    Result<(), String>) where S: State, A: Action, I: Simulator<S, A>
    requires
        old(simulator).inv(),
        I::valid_state(state),
    ensures
        final(simulator).inv(),
        checked is Ok <==> allowed(I::legal_actions(state), actions@),
        checked is Err ==> is_complaint(
            I::legal_actions(state),
            actions@,
            state.text(),
            checked->Err_0@,
        ),
{
    let shape = simulator.check_valid_state_transition(state, actions);
    if shape.is_err() {
        return shape;
    }
    let all_legal_actions = simulator.calculate_legal_actions(state);
    let ghost legal = I::legal_actions(state);
    let mut player_id: usize = 0;
    while player_id < actions.len()
        invariant
            simulator.inv(),
            legal == I::legal_actions(state),
            holds_sets(all_legal_actions@, legal),
            well_shaped(legal, actions@),
            player_id <= actions.len(),
            forall|q: int| 0 <= q < player_id ==> !#[trigger] plays_illegally(legal, actions@, q),
        decreases actions.len() - player_id,
    {
        assert(all_legal_actions@[player_id as int]@ == legal[player_id as int]);
        match &actions[player_id] {
            Some(action) => {
                if !all_legal_actions[player_id].contains(action) {
                    let mut complaint: String = String::from_str("Illegal action, ");
                    complaint.append(action.to_string().as_str());
                    complaint.append(", of player ");
                    complaint.append(decimal_text(player_id as u64).as_str());
                    complaint.append(", from state, ");
                    complaint.append(state.to_string().as_str());
                    assert(plays_illegally(legal, actions@, player_id as int));
                    assert(actions@[player_id as int] is Some);
                    return Err(complaint);
                }
            },
            None => {},
        }
        player_id += 1;
    }
    proof {
        assert forall|p: int| 0 <= p < legal.len() && (#[trigger] actions@[p]) is Some implies legal[p].contains(
            actions@[p]->0,
        ) by {
            assert(!plays_illegally(legal, actions@, p));
        }
    }
    Ok(())
}

/// Applies the joint action `actions` to `state` where the rules allow it,
/// and refuses it where they do not: then no state is given, only the
/// complaint. Nothing is put in the place of an action that is not legal.
pub fn try_state_transition<S, A, I>(simulator: &mut I, state: &S, actions: &Vec<Option<A>>) -> (outcome:
    Result<S, String>) where S: State, A: Action, I: Simulator<S, A>
    requires
        old(simulator).inv(),
        I::valid_state(state),
    ensures
        final(simulator).inv(),
        outcome is Ok <==> allowed(I::legal_actions(state), actions@),
        outcome is Ok ==> I::valid_state(&outcome->Ok_0) && I::may_follow(
            state,
            actions@,
            &outcome->Ok_0,
        ),
        outcome is Err ==> is_complaint(
            I::legal_actions(state),
            actions@,
            state.text(),
            outcome->Err_0@,
        ),
{
    match check_joint_action(simulator, state, actions) {
        Ok(()) => Ok(simulator.state_transition(state, actions)),
        Err(complaint) => Err(complaint),
    }
}

} // verus!
