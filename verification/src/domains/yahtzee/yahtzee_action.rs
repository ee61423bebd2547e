//! A move of the dice game.

use vstd::prelude::*;
use vstd::string::StringExecFns;

use super::yahtzee_score_category::YahtzeeScoreCategory;
use crate::engine::simulator::Action;
use crate::text::decimal_text;

verus! {

/// What the player can do with a roll.
#[derive(Clone, Copy, Debug, Hash, PartialEq, Eq)]
pub enum YahtzeeAction {
    /// Select dice to hold for next roll: `selected[i]` of the dice that
    /// show the face `i + 1`.
    SelectDice { selected: [u8; 6] },
    /// Select a category to score.
    SelectCategory { score_category: YahtzeeScoreCategory },
}

/// The text of the counts `selected[..upto]`, with a comma and a blank
/// between two of them.
pub open spec fn counts_text(selected: Seq<u8>, upto: int) -> Seq<char>
    decreases upto,
{
    if upto <= 0 {
        Seq::empty()
    } else if upto == 1 {
        crate::text::decimal(selected[0] as nat)
    } else {
        counts_text(selected, upto - 1) + seq![',', ' '] + crate::text::decimal(
            selected[upto - 1] as nat,
        )
    }
}

/// Whether two selections hold the same count for every face.
pub fn same_counts(first: &[u8; 6], second: &[u8; 6]) -> (same: bool)
    ensures
        same == (*first == *second),
{
    let mut i: usize = 0;
    while i < 6
        invariant
            i <= 6,
            forall|j: int| 0 <= j < i ==> first[j] == second[j],
        decreases 6 - i,
    {
        if first[i] != second[i] {
            return false;
        }
        i += 1;
    }
    assert(*first =~= *second);
    true
}

impl Action for YahtzeeAction {
    /// The counts of the dice held, in square brackets, or the name of the
    /// category.
    open spec fn text(&self) -> Seq<char> {
        match self {
            YahtzeeAction::SelectDice { selected } => seq!['['] + counts_text(selected@, 6) + seq![
                ']',
            ],
            YahtzeeAction::SelectCategory { score_category } => score_category.name(),
        }
    }

    fn same(&self, other: &Self) -> (same: bool) {
        match self {
            YahtzeeAction::SelectDice { selected } => match other {
                YahtzeeAction::SelectDice { selected: other_selected } => same_counts(
                    selected,
                    other_selected,
                ),
                YahtzeeAction::SelectCategory { .. } => false,
            },
            YahtzeeAction::SelectCategory { score_category } => match other {
                YahtzeeAction::SelectDice { .. } => false,
                YahtzeeAction::SelectCategory { score_category: other_category } => *score_category
                    == *other_category,
            },
        }
    }

    fn to_string(&self) -> (rendered: String) {
        match self {
            YahtzeeAction::SelectDice { selected } => {
                proof {
                    reveal_strlit("[");
                    reveal_strlit("]");
                }
                let mut rendered: String = String::from_str("[");
                let mut i: usize = 0;
                while i < 6
                    invariant
                        i <= 6,
                        rendered@ == seq!['['] + counts_text(selected@, i as int),
                    decreases 6 - i,
                {
                    proof {
                        reveal_strlit(", ");
                    }
                    if i != 0 {
                        rendered.append(", ");
                    }
                    rendered.append(decimal_text(selected[i] as u64).as_str());
                    i += 1;
                    assert(rendered@ =~= seq!['['] + counts_text(selected@, i as int));
                }
                rendered.append("]");
                rendered
            },
            YahtzeeAction::SelectCategory { score_category } => String::from_str(
                score_category.to_str(),
            ),
        }
    }
}

} // verus!
