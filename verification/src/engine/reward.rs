//! Outcome values handed to the players when a game is over.

use vstd::prelude::*;

verus! {

/// What one player gets out of a finished game. A larger value is a better
/// outcome.
#[derive(Clone, Copy, Debug, PartialEq, Eq, Structural)]
pub struct Reward(pub isize);

impl Reward {
    /// The value of a win.
    pub open spec fn spec_win() -> Reward {
        Reward(1)
    }

    /// The value of a loss.
    pub open spec fn spec_loss() -> Reward {
        Reward(-1isize)
    }

    /// The value of a draw, also the neutral value of a game still running.
    pub open spec fn spec_draw() -> Reward {
        Reward(0)
    }

    /// Whether `self` is a strictly better outcome than `other`.
    pub open spec fn spec_better_than(self, other: Reward) -> bool {
        self.0 > other.0
    }

    /// Whether `self` is a strictly better outcome than `other`.
    #[verifier::when_used_as_spec(spec_better_than)]
    pub fn better_than(self, other: Reward) -> (better: bool)
        ensures
            better == self.spec_better_than(other),
    {
        self.0 > other.0
    }

    /// The value of a win.
    #[verifier::when_used_as_spec(spec_win)]
    pub fn win() -> (r: Reward)
        ensures
            r == Reward::spec_win(),
    {
        Reward(1)
    }

    /// The value of a loss.
    #[verifier::when_used_as_spec(spec_loss)]
    pub fn loss() -> (r: Reward)
        ensures
            r == Reward::spec_loss(),
    {
        Reward(-1)
    }

    /// The value of a draw, also the neutral value of a game still running.
    #[verifier::when_used_as_spec(spec_draw)]
    pub fn draw() -> (r: Reward)
        ensures
            r == Reward::spec_draw(),
    {
        Reward(0)
    }
}

/// The rewards of a two-player game that nobody won.
pub open spec fn adversarial_draw_spec() -> Seq<Reward> {
    seq![Reward::spec_draw(), Reward::spec_draw()]
}

/// The rewards of a two-player game that the first player won.
pub open spec fn adversarial_p1_win_spec() -> Seq<Reward> {
    seq![Reward::spec_win(), Reward::spec_loss()]
}

/// The rewards of a two-player game that the first player lost.
pub open spec fn adversarial_p1_loss_spec() -> Seq<Reward> {
    seq![Reward::spec_loss(), Reward::spec_win()]
}

/// The rewards as a vector, in player order.
pub fn adversarial_draw() -> (rewards: Vec<Reward>)
    ensures
        rewards@ == adversarial_draw_spec(),
{
    let rewards: Vec<Reward> = vec![Reward::draw(), Reward::draw()];
    assert(rewards@ =~= adversarial_draw_spec());
    rewards
}

/// The rewards as a vector, in player order.
pub fn adversarial_p1_win() -> (rewards: Vec<Reward>)
    ensures
        rewards@ == adversarial_p1_win_spec(),
{
    let rewards: Vec<Reward> = vec![Reward::win(), Reward::loss()];
    assert(rewards@ =~= adversarial_p1_win_spec());
    rewards
}

/// The rewards as a vector, in player order.
pub fn adversarial_p1_loss() -> (rewards: Vec<Reward>)
    ensures
        rewards@ == adversarial_p1_loss_spec(),
{
    let rewards: Vec<Reward> = vec![Reward::loss(), Reward::win()];
    assert(rewards@ =~= adversarial_p1_loss_spec());
    rewards
}

/// A copy of `rewards`.
pub fn copy_rewards(rewards: &Vec<Reward>) -> (copy: Vec<Reward>)
    ensures
        copy@ == rewards@,
{
    let mut copy: Vec<Reward> = Vec::new();
    let mut i: usize = 0;
    while i < rewards.len()
        invariant
            i <= rewards.len(),
            copy@ == rewards@.take(i as int),
        decreases rewards.len() - i,
    {
        copy.push(rewards[i]);
        i += 1;
        assert(copy@ =~= rewards@.take(i as int));
    }
    assert(copy@ =~= rewards@);
    copy
}

/// A win is better than a draw, and a draw better than a loss.
pub proof fn lemma_win_draw_loss_ordered()
    ensures
        Reward::spec_win().better_than(Reward::spec_draw()),
        Reward::spec_draw().better_than(Reward::spec_loss()),
        Reward::spec_win().better_than(Reward::spec_loss()),
{
}

} // verus!
