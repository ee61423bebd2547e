//! The categories in which a roll can be scored.

use vstd::prelude::*;

use super::constants::N_CATEGORIES;

verus! {

/// A category of the score card. The categories are numbered from 0 in the
/// order in which they stand here.
#[derive(Debug, Clone, Copy, Hash, PartialEq, Eq, Structural)]
pub enum YahtzeeScoreCategory {
    Ones,
    Twos,
    Threes,
    Fours,
    Fives,
    Sixes,
    ThreeOfKind,
    FourOfKind,
    FullHouse,
    SmallStraight,
    LargeStraight,
    Yahtzee,
    Chance,
}

impl YahtzeeScoreCategory {
    /// The number of the category.
    pub open spec fn spec_ordinal(&self) -> i8 {
        match self {
            YahtzeeScoreCategory::Ones => 0,
            YahtzeeScoreCategory::Twos => 1,
            YahtzeeScoreCategory::Threes => 2,
            YahtzeeScoreCategory::Fours => 3,
            YahtzeeScoreCategory::Fives => 4,
            YahtzeeScoreCategory::Sixes => 5,
            YahtzeeScoreCategory::ThreeOfKind => 6,
            YahtzeeScoreCategory::FourOfKind => 7,
            YahtzeeScoreCategory::FullHouse => 8,
            YahtzeeScoreCategory::SmallStraight => 9,
            YahtzeeScoreCategory::LargeStraight => 10,
            YahtzeeScoreCategory::Yahtzee => 11,
            YahtzeeScoreCategory::Chance => 12,
        }
    }

    /// The category with the number `number`, if there is one.
    pub open spec fn spec_from_ordinal(number: i8) -> Option<YahtzeeScoreCategory> {
        if number == 0 {
            Some(YahtzeeScoreCategory::Ones)
        } else if number == 1 {
            Some(YahtzeeScoreCategory::Twos)
        } else if number == 2 {
            Some(YahtzeeScoreCategory::Threes)
        } else if number == 3 {
            Some(YahtzeeScoreCategory::Fours)
        } else if number == 4 {
            Some(YahtzeeScoreCategory::Fives)
        } else if number == 5 {
            Some(YahtzeeScoreCategory::Sixes)
        } else if number == 6 {
            Some(YahtzeeScoreCategory::ThreeOfKind)
        } else if number == 7 {
            Some(YahtzeeScoreCategory::FourOfKind)
        } else if number == 8 {
            Some(YahtzeeScoreCategory::FullHouse)
        } else if number == 9 {
            Some(YahtzeeScoreCategory::SmallStraight)
        } else if number == 10 {
            Some(YahtzeeScoreCategory::LargeStraight)
        } else if number == 11 {
            Some(YahtzeeScoreCategory::Yahtzee)
        } else if number == 12 {
            Some(YahtzeeScoreCategory::Chance)
        } else {
            None
        }
    }

    /// The name of the category.
    pub open spec fn name(&self) -> Seq<char> {
        match self {
            YahtzeeScoreCategory::Ones => "Ones"@,
            YahtzeeScoreCategory::Twos => "Twos"@,
            YahtzeeScoreCategory::Threes => "Threes"@,
            YahtzeeScoreCategory::Fours => "Fours"@,
            YahtzeeScoreCategory::Fives => "Fives"@,
            YahtzeeScoreCategory::Sixes => "Sixes"@,
            YahtzeeScoreCategory::ThreeOfKind => "ThreeOfKind"@,
            YahtzeeScoreCategory::FourOfKind => "FourOfKind"@,
            YahtzeeScoreCategory::FullHouse => "FullHouse"@,
            YahtzeeScoreCategory::SmallStraight => "SmallStraight"@,
            YahtzeeScoreCategory::LargeStraight => "LargeStraight"@,
            YahtzeeScoreCategory::Yahtzee => "Yahtzee"@,
            YahtzeeScoreCategory::Chance => "Chance"@,
        }
    }

    /// The number of categories.
    pub fn variant_count() -> (count: usize)
        ensures
            count == 13,
    {
        N_CATEGORIES
    }

    /// Gives the number of the category.
    #[verifier::when_used_as_spec(spec_ordinal)]
    pub fn ordinal(&self) -> (number: i8)
        ensures
            number == self.spec_ordinal(),
            0 <= number < 13,
    {
        match self {
            YahtzeeScoreCategory::Ones => 0,
            YahtzeeScoreCategory::Twos => 1,
            YahtzeeScoreCategory::Threes => 2,
            YahtzeeScoreCategory::Fours => 3,
            YahtzeeScoreCategory::Fives => 4,
            YahtzeeScoreCategory::Sixes => 5,
            YahtzeeScoreCategory::ThreeOfKind => 6,
            YahtzeeScoreCategory::FourOfKind => 7,
            YahtzeeScoreCategory::FullHouse => 8,
            YahtzeeScoreCategory::SmallStraight => 9,
            YahtzeeScoreCategory::LargeStraight => 10,
            YahtzeeScoreCategory::Yahtzee => 11,
            YahtzeeScoreCategory::Chance => 12,
        }
    }

    /// Gives the place of the category on the score card, which is its
    /// number.
    pub fn index(&self) -> (place: usize)
        ensures
            place == self.spec_ordinal(),
            place < 13,
    {
        match self {
            YahtzeeScoreCategory::Ones => 0,
            YahtzeeScoreCategory::Twos => 1,
            YahtzeeScoreCategory::Threes => 2,
            YahtzeeScoreCategory::Fours => 3,
            YahtzeeScoreCategory::Fives => 4,
            YahtzeeScoreCategory::Sixes => 5,
            YahtzeeScoreCategory::ThreeOfKind => 6,
            YahtzeeScoreCategory::FourOfKind => 7,
            YahtzeeScoreCategory::FullHouse => 8,
            YahtzeeScoreCategory::SmallStraight => 9,
            YahtzeeScoreCategory::LargeStraight => 10,
            YahtzeeScoreCategory::Yahtzee => 11,
            YahtzeeScoreCategory::Chance => 12,
        }
    }

    /// Gives the category with the number `number`, if there is one.
    #[verifier::when_used_as_spec(spec_from_ordinal)]
    pub fn from_ordinal(number: i8) -> (category: Option<YahtzeeScoreCategory>)
        ensures
            category == YahtzeeScoreCategory::spec_from_ordinal(number),
            category is Some <==> 0 <= number < 13,
            category is Some ==> category->0.spec_ordinal() == number,
    {
        match number {
            0 => Some(YahtzeeScoreCategory::Ones),
            1 => Some(YahtzeeScoreCategory::Twos),
            2 => Some(YahtzeeScoreCategory::Threes),
            3 => Some(YahtzeeScoreCategory::Fours),
            4 => Some(YahtzeeScoreCategory::Fives),
            5 => Some(YahtzeeScoreCategory::Sixes),
            6 => Some(YahtzeeScoreCategory::ThreeOfKind),
            7 => Some(YahtzeeScoreCategory::FourOfKind),
            8 => Some(YahtzeeScoreCategory::FullHouse),
            9 => Some(YahtzeeScoreCategory::SmallStraight),
            10 => Some(YahtzeeScoreCategory::LargeStraight),
            11 => Some(YahtzeeScoreCategory::Yahtzee),
            12 => Some(YahtzeeScoreCategory::Chance),
            _ => None,
        }
    }

    /// Gives every category, in the order of their numbers.
    pub fn variants() -> (all: [YahtzeeScoreCategory; 13])
        ensures
            forall|number: int|
                0 <= number < 13 ==> (#[trigger] all[number]).spec_ordinal() == number,
    {
        [
            YahtzeeScoreCategory::Ones,
            YahtzeeScoreCategory::Twos,
            YahtzeeScoreCategory::Threes,
            YahtzeeScoreCategory::Fours,
            YahtzeeScoreCategory::Fives,
            YahtzeeScoreCategory::Sixes,
            YahtzeeScoreCategory::ThreeOfKind,
            YahtzeeScoreCategory::FourOfKind,
            YahtzeeScoreCategory::FullHouse,
            YahtzeeScoreCategory::SmallStraight,
            YahtzeeScoreCategory::LargeStraight,
            YahtzeeScoreCategory::Yahtzee,
            YahtzeeScoreCategory::Chance,
        ]
    }

    /// Gives the name of the category.
    pub fn to_str(&self) -> (name: &'static str)
        ensures
            name@ == self.name(),
    {
        match self {
            YahtzeeScoreCategory::Ones => "Ones",
            YahtzeeScoreCategory::Twos => "Twos",
            YahtzeeScoreCategory::Threes => "Threes",
            YahtzeeScoreCategory::Fours => "Fours",
            YahtzeeScoreCategory::Fives => "Fives",
            YahtzeeScoreCategory::Sixes => "Sixes",
            YahtzeeScoreCategory::ThreeOfKind => "ThreeOfKind",
            YahtzeeScoreCategory::FourOfKind => "FourOfKind",
            YahtzeeScoreCategory::FullHouse => "FullHouse",
            YahtzeeScoreCategory::SmallStraight => "SmallStraight",
            YahtzeeScoreCategory::LargeStraight => "LargeStraight",
            YahtzeeScoreCategory::Yahtzee => "Yahtzee",
            YahtzeeScoreCategory::Chance => "Chance",
        }
    }
}

/// A category is found again by its number, and no two categories share a
/// number.
pub proof fn lemma_ordinal_round_trip(category: YahtzeeScoreCategory, other: YahtzeeScoreCategory)
    ensures
        YahtzeeScoreCategory::spec_from_ordinal(category.spec_ordinal()) == Some(category),
        category.spec_ordinal() == other.spec_ordinal() ==> category == other,
{
}

} // verus!
