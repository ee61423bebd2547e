//! Agents: whoever picks a player's action, among the legal ones.

use rand_chacha::ChaCha8Rng;
use vstd::prelude::*;
use vstd::string::StringExecFns;

use super::random::random_index;
use super::simulator::{Action, LegalActions, Simulator, State};

verus! {

/// An agent interacts in a domain by selecting an action from the legal
/// actions of a player in the current state.
pub trait Agent {
    /// Selects an action for the player `player_id`, who must have a legal
    /// action in `state`. The action selected is one of that player's legal
    /// actions.
    fn select_action<S, A, I>(&mut self, player_id: usize, state: &S, simulator: &mut I) -> (action:
        A) where S: State, A: Action, I: Simulator<S, A>
        requires
            old(simulator).inv(),
            I::valid_state(state),
            player_id < I::legal_actions(state).len(),
            I::legal_actions(state)[player_id as int] != Set::<A>::empty(),
        ensures
            final(simulator).inv(),
            I::legal_actions(state)[player_id as int].contains(action),
    ;
}

/// Selects one of the legal actions of the player `player_id` at random.
pub fn select_random_action<S, A, I>(
    rng: &mut ChaCha8Rng,
    player_id: usize,
    state: &S,
    simulator: &mut I,
) -> (action: A) where S: State, A: Action, I: Simulator<S, A>
    requires
        old(simulator).inv(),
        I::valid_state(state),
        player_id < I::legal_actions(state).len(),
        I::legal_actions(state)[player_id as int] != Set::<A>::empty(),
    ensures
        final(simulator).inv(),
        I::legal_actions(state)[player_id as int].contains(action),
{
    let mut all_legal_actions: Vec<LegalActions<A>> = simulator.calculate_legal_actions(state);
    assert(all_legal_actions@[player_id as int]@ == I::legal_actions(state)[player_id as int]);
    let player_legal_actions: LegalActions<A> = all_legal_actions.swap_remove(player_id);
    let count: usize = player_legal_actions.len();
    assert(count > 0) by {
        player_legal_actions.lemma_members_are_listed();
        if count == 0 {
            assert(player_legal_actions@ =~= Set::<A>::empty());
        }
    }
    let index: usize = random_index(rng, count);
    player_legal_actions.take(index)
}

/// An agent that selects a random action from the legal actions.
pub struct RandomAgent {
    pub rng: ChaCha8Rng,
}

impl RandomAgent {
    /// An agent that draws from `rng`.
    pub fn new(rng: ChaCha8Rng) -> (agent: Self)
        ensures
            agent.rng == rng,
    {
        RandomAgent { rng }
    }
}

impl Agent for RandomAgent {
    fn select_action<S, A, I>(&mut self, player_id: usize, state: &S, simulator: &mut I) -> (action:
        A) where S: State, A: Action, I: Simulator<S, A> {
        select_random_action(&mut self.rng, player_id, state, simulator)
    }
}

/// Whether `c` is white space as Unicode defines it (White_Space): blanks,
/// tabs and line ends among others.
pub open spec fn is_white_space(c: char) -> bool {
    let code = c as u32;
    ||| 0x09 <= code <= 0x0d
    ||| code == 0x20
    ||| code == 0x85
    ||| code == 0xa0
    ||| code == 0x1680
    ||| 0x2000 <= code <= 0x200a
    ||| code == 0x2028
    ||| code == 0x2029
    ||| code == 0x202f
    ||| code == 0x205f
    ||| code == 0x3000
}

/// Whether `input[start..end]` is `input` without the white space that it
/// begins and ends with: all before `start` and all from `end` on is white
/// space, and the part between them, where there is one, neither begins
/// nor ends with white space.
pub open spec fn trims_at(input: Seq<char>, start: int, end: int) -> bool {
    &&& 0 <= start <= end <= input.len()
    &&& forall|i: int| 0 <= i < start ==> is_white_space(#[trigger] input[i])
    &&& forall|i: int| end <= i < input.len() ==> is_white_space(#[trigger] input[i])
    &&& start < end ==> !is_white_space(input[start]) && !is_white_space(input[end - 1])
}

/// Whether `trimmed` is `input` without the white space that it begins and
/// ends with.
pub open spec fn is_trimmed(input: Seq<char>, trimmed: Seq<char>) -> bool {
    exists|start: int, end: int| #[trigger]
        trims_at(input, start, end) && input.subrange(start, end) == trimmed
}

/// Calls `str::trim`, which gives the part of `input` that is left when the
/// white space at its beginning and at its end is taken away.
#[verifier::external_body]
pub(crate) fn trim<'a>(input: &'a str) -> (trimmed: &'a str)
    ensures
        is_trimmed(input@, trimmed@),
{
    input.trim()
}

/// Finds the action that a player typed: the first action of the listing
/// whose text is `input` without the white space around it. There is none
/// where the player typed something else.
pub fn find_typed_action<A: Action>(legal_actions: LegalActions<A>, input: &str) -> (found: Option<
    A,
>)
    ensures
        match found {
            Some(action) => {
                &&& legal_actions@.contains(action)
                &&& is_trimmed(input@, action.text())
                &&& exists|place: int|
                    {
                        &&& 0 <= place < legal_actions.listing().len()
                        &&& #[trigger] legal_actions.listing()[place] == action
                        &&& forall|earlier: int|
                            0 <= earlier < place ==> !is_trimmed(
                                input@,
                                #[trigger] legal_actions.listing()[earlier].text(),
                            )
                    }
            },
            None => forall|action: A|
                legal_actions@.contains(action) ==> !is_trimmed(input@, #[trigger] action.text()),
        },
{
    let typed: String = String::from_str(trim(input));
    let count: usize = legal_actions.len();
    let mut place: usize = 0;
    while place < count
        invariant
            place <= count,
            count == legal_actions.listing().len(),
            is_trimmed(input@, typed@),
            forall|earlier: int|
                0 <= earlier < place ==> legal_actions.listing()[earlier].text() != typed@,
        decreases count - place,
    {
        let rendered: String = legal_actions.get(place).to_string();
        if rendered == typed {
            proof {
                assert forall|earlier: int| 0 <= earlier < place implies !is_trimmed(
                    input@,
                    #[trigger] legal_actions.listing()[earlier].text(),
                ) by {
                    if is_trimmed(input@, legal_actions.listing()[earlier].text()) {
                        lemma_trimmed_once(
                            input@,
                            typed@,
                            legal_actions.listing()[earlier].text(),
                        );
                    }
                }
            }
            return Some(legal_actions.take(place));
        }
        place += 1;
    }
    proof {
        legal_actions.lemma_members_are_listed();
        assert forall|action: A| legal_actions@.contains(action) implies !is_trimmed(
            input@,
            #[trigger] action.text(),
        ) by {
            let at = choose|at: int|
                0 <= at < legal_actions.listing().len() && legal_actions.listing()[at] == action;
            if is_trimmed(input@, action.text()) {
                lemma_trimmed_once(input@, typed@, action.text());
            }
        }
    }
    None
}

/// A text has one trimmed form.
pub proof fn lemma_trimmed_once(input: Seq<char>, first: Seq<char>, second: Seq<char>)
    requires
        is_trimmed(input, first),
        is_trimmed(input, second),
    ensures
        first == second,
{
    let (s1, e1) = choose|start: int, end: int| #[trigger]
        trims_at(input, start, end) && input.subrange(start, end) == first;
    let (s2, e2) = choose|start: int, end: int| #[trigger]
        trims_at(input, start, end) && input.subrange(start, end) == second;
    if s1 < e1 && s2 < e2 {
        if s1 < s2 {
            assert(is_white_space(input[s1]));
        } else if s2 < s1 {
            assert(is_white_space(input[s2]));
        }
        if e1 < e2 {
            assert(is_white_space(input[e2 - 1]));
        } else if e2 < e1 {
            assert(is_white_space(input[e1 - 1]));
        }
    } else if s1 < e1 {
        assert(is_white_space(input[s1]));
    } else if s2 < e2 {
        assert(is_white_space(input[s2]));
    }
    assert(first =~= second);
}

/// An agent that lets a person choose: it takes what the person typed and
/// looks for the legal action that is shown so.
pub struct IoAgent;

impl IoAgent {
    /// An agent for a person.
    pub fn new() -> (agent: Self) {
        IoAgent
    }

    /// Reads one line that the person typed for the player `player_id`: it
    /// gives the legal action of that player whose text is the line without
    /// the white space around it, and none where no legal action is shown
    /// so, in which case the person is to be asked again.
    pub fn read_action<S, A, I>(
        &self,
        player_id: usize,
        state: &S,
        simulator: &mut I,
        input: &str,
    ) -> (selected: Option<A>) where S: State, A: Action, I: Simulator<S, A>
        requires
            old(simulator).inv(),
            I::valid_state(state),
            player_id < I::legal_actions(state).len(),
        ensures
            final(simulator).inv(),
            match selected {
                Some(action) => {
                    &&& I::legal_actions(state)[player_id as int].contains(action)
                    &&& is_trimmed(input@, action.text())
                },
                None => forall|action: A|
                    I::legal_actions(state)[player_id as int].contains(action) ==> !is_trimmed(
                        input@,
                        #[trigger] action.text(),
                    ),
            },
    {
        let mut all_legal_actions: Vec<LegalActions<A>> = simulator.calculate_legal_actions(state);
        assert(all_legal_actions@[player_id as int]@ == I::legal_actions(state)[player_id as int]);
        let player_legal_actions: LegalActions<A> = all_legal_actions.swap_remove(player_id);
        find_typed_action(player_legal_actions, input)
    }
}

/// The agents that come with the engine.
#[derive(Debug)]
pub enum DefaultAgents {
    /// Selects an action by prompting the user.
    Io,
    /// Selects a random action from the list of legal actions.
    Random(ChaCha8Rng),
}

impl DefaultAgents {
    /// The name of the agent.
    pub open spec fn name(&self) -> Seq<char> {
        match self {
            DefaultAgents::Io => "Io Agent"@,
            DefaultAgents::Random(_) => "Random Agent"@,
        }
    }

    /// Renders the agent's name for display.
    pub fn to_string(&self) -> (rendered: String)
        ensures
            rendered@ == self.name(),
    {
        match self {
            DefaultAgents::Io => String::from_str("Io Agent"),
            DefaultAgents::Random(_) => String::from_str("Random Agent"),
        }
    }
}

} // verus!
