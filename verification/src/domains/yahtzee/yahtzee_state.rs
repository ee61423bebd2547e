//! A position of the dice game.

use vstd::prelude::*;
use vstd::string::StringExecFns;

use super::constants::{N_CATEGORIES, N_DICE, N_VALUES};
use super::yahtzee_score_category::YahtzeeScoreCategory;
use crate::engine::simulator::State;
use crate::text::decimal_text;

verus! {

/// The dice as they lie, the number of the roll, and the score card.
///
/// `dice_values[i]` is the number of dice that show the face `i + 1`.
/// `scores[k]` is the score written into the category with the number `k`,
/// where one is written.
#[derive(Clone, Copy, Debug, Hash, PartialEq, Eq)]
pub struct YahtzeeState {
    pub dice_values: [u8; 6],
    pub roll_number: u8,
    pub scores: [Option<u16>; 13],
}

/// The number of dice that `dice` counts.
pub open spec fn dice_total(dice: Seq<u8>) -> int {
    dice[0] + dice[1] + dice[2] + dice[3] + dice[4] + dice[5]
}

/// 1 where a score is written, 0 where none is.
pub open spec fn written(score: Option<u16>) -> int {
    if score is Some {
        1
    } else {
        0
    }
}

/// The number of categories of `scores` into which a score is written.
pub open spec fn filled(scores: Seq<Option<u16>>) -> int {
    written(scores[0]) + written(scores[1]) + written(scores[2]) + written(scores[3]) + written(
        scores[4],
    ) + written(scores[5]) + written(scores[6]) + written(scores[7]) + written(scores[8])
        + written(scores[9]) + written(scores[10]) + written(scores[11]) + written(scores[12])
}

impl YahtzeeState {
    /// Whether a category is still without a score.
    pub open spec fn spec_has_categories_left(&self) -> bool {
        exists|k: int| 0 <= k < 13 && (#[trigger] self.scores[k]) is None
    }

    /// The face that all five dice show, counted from 0, if they all show
    /// one face.
    pub open spec fn spec_check_yahtzee(&self) -> Option<usize> {
        if self.dice_values[0] == 5 {
            Some(0usize)
        } else if self.dice_values[1] == 5 {
            Some(1usize)
        } else if self.dice_values[2] == 5 {
            Some(2usize)
        } else if self.dice_values[3] == 5 {
            Some(3usize)
        } else if self.dice_values[4] == 5 {
            Some(4usize)
        } else if self.dice_values[5] == 5 {
            Some(5usize)
        } else {
            None
        }
    }

    /// What holds of every state of a game: there are five dice, the roll
    /// is the first, second or third of its turn, and the score in the
    /// five-of-a-kind category is 50 with at most one bonus of 100 for each
    /// roll made so far.
    pub open spec fn is_valid(&self) -> bool {
        &&& dice_total(self.dice_values@) == 5
        &&& 1 <= self.roll_number <= 3
        &&& match self.scores[11] {
            Some(score) => score <= 50 + 100 * (3 * filled(self.scores@) + self.roll_number - 1),
            None => true,
        }
    }

    /// Whether a category is still without a score.
    #[verifier::when_used_as_spec(spec_has_categories_left)]
    pub fn has_categories_left(&self) -> (left: bool)
        ensures
            left == self.spec_has_categories_left(),
    {
        let mut k: usize = 0;
        while k < N_CATEGORIES
            invariant
                k <= 13,
                forall|j: int| 0 <= j < k ==> (#[trigger] self.scores[j]) is Some,
            decreases 13 - k,
        {
            if self.scores[k].is_none() {
                return true;
            }
            k += 1;
        }
        false
    }

    /// Return the die number corresponding to yahtzee or None if not
    /// yahtzee: the face that all five dice show, counted from 0.
    #[verifier::when_used_as_spec(spec_check_yahtzee)]
    pub fn check_yahtzee(&self) -> (face: Option<usize>)
        ensures
            face == self.spec_check_yahtzee(),
            face is Some ==> face->0 < 6 && self.dice_values[face->0 as int] == 5,
            face is None ==> forall|i: int| 0 <= i < 6 ==> #[trigger] self.dice_values[i] != 5,
    {
        let mut i: usize = 0;
        while i < N_VALUES
            invariant
                i <= 6,
                forall|j: int| 0 <= j < i ==> #[trigger] self.dice_values[j] != 5,
            decreases 6 - i,
        {
            if self.dice_values[i] == N_DICE as u8 {
                return Some(i);
            }
            i += 1;
        }
        None
    }

    /// The text of the dice `dice_values[..upto]`: each count with a blank
    /// after it.
    pub open spec fn dice_text(&self, upto: int) -> Seq<char>
        decreases upto,
    {
        if 0 < upto <= 6 {
            self.dice_text(upto - 1) + crate::text::decimal(self.dice_values[upto - 1] as nat)
                + seq![' ']
        } else {
            Seq::empty()
        }
    }

    /// The text of the score in the category with the number `k`: the
    /// score, or a dash where none is written.
    pub open spec fn score_text(&self, k: int) -> Seq<char> {
        match self.scores[k] {
            Some(score) => crate::text::decimal(score as nat),
            None => seq!['-'],
        }
    }

    /// The text of the lines of the score card for the categories with the
    /// numbers below `upto`: for each its name, a colon, a blank and its
    /// score, with a line end after every line but that of the last
    /// category.
    pub open spec fn card_text(&self, upto: int) -> Seq<char>
        decreases upto,
    {
        if 0 < upto <= 13 {
            self.card_text(upto - 1) + YahtzeeScoreCategory::spec_from_ordinal(
                (upto - 1) as i8,
            )->0.name() + seq![':', ' '] + self.score_text(upto - 1) + if upto == 13 {
                Seq::<char>::empty()
            } else {
                seq!['\n']
            }
        } else {
            Seq::empty()
        }
    }

    /// The text of the state: the number of the roll and the dice on the
    /// first line, the score card below it.
    pub open spec fn state_text(&self) -> Seq<char> {
        crate::text::decimal(self.roll_number as nat) + seq![' ', '-', ' ', '[', ' ']
            + self.dice_text(6) + seq![']', '\n'] + self.card_text(13)
    }
}

impl State for YahtzeeState {
    open spec fn text(&self) -> Seq<char> {
        self.state_text()
    }

    fn to_string(&self) -> (rendered: String) {
        proof {
            reveal_strlit(" - [ ");
            reveal_strlit("]\n");
        }
        let mut rendered: String = decimal_text(self.roll_number as u64);
        rendered.append(" - [ ");
        let ghost head = rendered@;
        assert(head =~= crate::text::decimal(self.roll_number as nat) + seq![' ', '-', ' ', '[', ' ']);
        let mut i: usize = 0;
        while i < N_VALUES
            invariant
                i <= 6,
                rendered@ == head + self.dice_text(i as int),
            decreases 6 - i,
        {
            proof {
                reveal_strlit(" ");
            }
            rendered.append(decimal_text(self.dice_values[i] as u64).as_str());
            rendered.append(" ");
            i += 1;
            assert(rendered@ =~= head + self.dice_text(i as int));
        }
        rendered.append("]\n");
        let ghost top = rendered@;
        assert(top =~= head + self.dice_text(6) + seq![']', '\n']);
        let score_categories = YahtzeeScoreCategory::variants();
        let mut k: usize = 0;
        while k < N_CATEGORIES
            invariant
                k <= 13,
                rendered@ == top + self.card_text(k as int),
                forall|number: int|
                    0 <= number < 13 ==> (#[trigger] score_categories[number]).spec_ordinal()
                        == number,
            decreases 13 - k,
        {
            proof {
                reveal_strlit(": ");
                reveal_strlit("-");
                reveal_strlit("\n");
                super::yahtzee_score_category::lemma_ordinal_round_trip(
                    score_categories[k as int],
                    score_categories[k as int],
                );
            }
            let category_name: &'static str = score_categories[k].to_str();
            rendered.append(category_name);
            rendered.append(": ");
            match self.scores[k] {
                Some(score) => {
                    rendered.append(decimal_text(score as u64).as_str());
                },
                None => {
                    rendered.append("-");
                },
            }
            if k != N_CATEGORIES - 1 {
                rendered.append("\n");
            }
            k += 1;
            assert(rendered@ =~= top + self.card_text(k as int));
        }
        assert(rendered@ =~= self.state_text());
        rendered
    }
}

} // verus!
