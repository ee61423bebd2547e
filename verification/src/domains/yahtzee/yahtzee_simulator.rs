//! The rules of the dice game: scoring, legal moves, rolling and the move
//! itself.

use rand_chacha::ChaCha8Rng;
use vstd::prelude::*;

use super::constants::{N_CATEGORIES, N_DICE, N_VALUES};
use super::yahtzee_action::YahtzeeAction;
use super::yahtzee_score_category::YahtzeeScoreCategory;
use super::yahtzee_state::YahtzeeState;
use crate::engine::random::next_u32;
use crate::engine::reward::Reward;
use crate::engine::simulator::{LegalActions, Simulator};

verus! {

/// The sum of the first six categories from which the bonus is given.
pub const BONUS_THRESHOLD: u16 = 63;

/// The bonus for the first six categories.
pub const BONUS_SCORE: u16 = 35;

/// The score of a full house.
pub const FULL_HOUSE_SCORE: u16 = 25;

/// The score of a small straight.
pub const SMALL_STRAIGHT_SCORE: u16 = 30;

/// The score of a large straight.
pub const LARGE_STRAIGHT_SCORE: u16 = 40;

/// The score of five of a kind.
pub const YAHTZEE_SCORE: u16 = 50;

/// The bonus for five of a kind thrown again.
pub const YAHTZEE_BONUS: u16 = 100;

/// Whether some face is shown by at least `count` dice.
pub open spec fn some_face_at_least(dice: Seq<u8>, count: int) -> bool {
    exists|i: int| 0 <= i < 6 && #[trigger] dice[i] >= count
}

/// Whether some face is shown by exactly `count` dice.
pub open spec fn some_face_exactly(dice: Seq<u8>, count: int) -> bool {
    exists|i: int| 0 <= i < 6 && #[trigger] dice[i] == count
}

/// Whether each of the `length` faces from `first` on is shown by a die.
pub open spec fn run_from(dice: Seq<u8>, first: int, length: int) -> bool {
    forall|i: int| first <= i < first + length ==> #[trigger] dice[i] > 0
}

/// Whether `length` faces in a row are each shown by a die.
pub open spec fn has_run(dice: Seq<u8>, length: int) -> bool {
    exists|first: int| 0 <= first <= 6 - length && #[trigger] run_from(dice, first, length)
}

/// The score of `dice` in `category`.
pub open spec fn score_of(category: YahtzeeScoreCategory, dice: Seq<u8>) -> int {
    match category {
        YahtzeeScoreCategory::Ones => dice[0] as int,
        YahtzeeScoreCategory::Twos => dice[1] * 2,
        YahtzeeScoreCategory::Threes => dice[2] * 3,
        YahtzeeScoreCategory::Fours => dice[3] * 4,
        YahtzeeScoreCategory::Fives => dice[4] * 5,
        YahtzeeScoreCategory::Sixes => dice[5] * 6,
        YahtzeeScoreCategory::ThreeOfKind => if some_face_at_least(dice, 3) {
            super::yahtzee_state::dice_total(dice)
        } else {
            0
        },
        YahtzeeScoreCategory::FourOfKind => if some_face_at_least(dice, 4) {
            super::yahtzee_state::dice_total(dice)
        } else {
            0
        },
        YahtzeeScoreCategory::FullHouse => if some_face_exactly(dice, 2) && some_face_exactly(
            dice,
            3,
        ) {
            25
        } else {
            0
        },
        YahtzeeScoreCategory::SmallStraight => if has_run(dice, 4) {
            30
        } else {
            0
        },
        YahtzeeScoreCategory::LargeStraight => if has_run(dice, 5) {
            40
        } else {
            0
        },
        YahtzeeScoreCategory::Yahtzee => if some_face_exactly(dice, 5) {
            50
        } else {
            0
        },
        YahtzeeScoreCategory::Chance => super::yahtzee_state::dice_total(dice),
    }
}

/// The sum of the six counts.
pub fn sum_of_values(dice_values: &[u8; 6]) -> (sum: u16)
    ensures
        sum == super::yahtzee_state::dice_total(dice_values@),
{
    let mut sum: u16 = 0;
    let mut i: usize = 0;
    while i < N_VALUES
        invariant
            i <= 6,
            sum <= 255 * i,
            sum == (if i > 0 {
                dice_values[0] as int
            } else {
                0
            }) + (if i > 1 {
                dice_values[1] as int
            } else {
                0
            }) + (if i > 2 {
                dice_values[2] as int
            } else {
                0
            }) + (if i > 3 {
                dice_values[3] as int
            } else {
                0
            }) + (if i > 4 {
                dice_values[4] as int
            } else {
                0
            }) + (if i > 5 {
                dice_values[5] as int
            } else {
                0
            }),
        decreases 6 - i,
    {
        sum = sum + dice_values[i] as u16;
        i += 1;
    }
    sum
}

/// The score in the category of the ones: one point for each die that
/// shows a one.
pub fn score_ones(dice_values: &[u8; 6]) -> (score: u16)
    ensures
        score == score_of(YahtzeeScoreCategory::Ones, dice_values@),
{
    dice_values[0] as u16
}

/// The score in the category of the twos: two points for each die that
/// shows a two.
pub fn score_twos(dice_values: &[u8; 6]) -> (score: u16)
    ensures
        score == score_of(YahtzeeScoreCategory::Twos, dice_values@),
{
    dice_values[1] as u16 * 2
}

/// The score in the category of the threes: three points for each die that
/// shows a three.
pub fn score_threes(dice_values: &[u8; 6]) -> (score: u16)
    ensures
        score == score_of(YahtzeeScoreCategory::Threes, dice_values@),
{
    dice_values[2] as u16 * 3
}

/// The score in the category of the fours: four points for each die that
/// shows a four.
pub fn score_fours(dice_values: &[u8; 6]) -> (score: u16)
    ensures
        score == score_of(YahtzeeScoreCategory::Fours, dice_values@),
{
    dice_values[3] as u16 * 4
}

/// The score in the category of the fives: five points for each die that
/// shows a five.
pub fn score_fives(dice_values: &[u8; 6]) -> (score: u16)
    ensures
        score == score_of(YahtzeeScoreCategory::Fives, dice_values@),
{
    dice_values[4] as u16 * 5
}

/// The score in the category of the sixes: six points for each die that
/// shows a six.
pub fn score_sixes(dice_values: &[u8; 6]) -> (score: u16)
    ensures
        score == score_of(YahtzeeScoreCategory::Sixes, dice_values@),
{
    dice_values[5] as u16 * 6
}

/// The score for three of a kind: the sum of the six counts where some face
/// is shown by three dice or more, else nothing.
pub fn score_three_of_a_kind(dice_values: &[u8; 6]) -> (score: u16)
    ensures
        score == score_of(YahtzeeScoreCategory::ThreeOfKind, dice_values@),
{
    let mut i: usize = 0;
    while i < N_VALUES
        invariant
            i <= 6,
            forall|j: int| 0 <= j < i ==> #[trigger] dice_values[j] < 3,
        decreases 6 - i,
    {
        if dice_values[i] >= 3 {
            return sum_of_values(dice_values);
        }
        i += 1;
    }
    return 0;
}

/// The score for four of a kind: the sum of the six counts where some face
/// is shown by four dice or more, else nothing.
pub fn score_four_of_a_kind(dice_values: &[u8; 6]) -> (score: u16)
    ensures
        score == score_of(YahtzeeScoreCategory::FourOfKind, dice_values@),
{
    let mut i: usize = 0;
    while i < N_VALUES
        invariant
            i <= 6,
            forall|j: int| 0 <= j < i ==> #[trigger] dice_values[j] < 4,
        decreases 6 - i,
    {
        if dice_values[i] >= 4 {
            return sum_of_values(dice_values);
        }
        i += 1;
    }
    return 0;
}

/// The score for a full house: 25 where one face is shown by exactly two
/// dice and another by exactly three, else nothing.
pub fn score_full_house(dice_values: &[u8; 6]) -> (score: u16)
    ensures
        score == score_of(YahtzeeScoreCategory::FullHouse, dice_values@),
{
    let mut score: u16 = 0;
    let mut has_two: bool = false;
    let mut has_three: bool = false;
    let mut i: usize = 0;
    while i < N_VALUES
        invariant
            i <= 6,
            has_two <==> exists|j: int| 0 <= j < i && #[trigger] dice_values[j] == 2,
            has_three <==> exists|j: int| 0 <= j < i && #[trigger] dice_values[j] == 3,
        decreases 6 - i,
    {
        if dice_values[i] == 2 {
            has_two = true;
        } else if dice_values[i] == 3 {
            has_three = true;
        }
        i += 1;
    }
    if has_two && has_three {
        score = FULL_HOUSE_SCORE;
    }
    score
}

/// The score for a small straight: 30 where four faces in a row are each
/// shown by a die, else nothing.
pub fn score_small_straight(dice_values: &[u8; 6]) -> (score: u16)
    ensures
        score == score_of(YahtzeeScoreCategory::SmallStraight, dice_values@),
{
    let mut i: usize = 0;
    while i < N_VALUES - 3
        invariant
            i <= 3,
            forall|first: int| 0 <= first < i ==> !#[trigger] run_from(dice_values@, first, 4),
        decreases 3 - i,
    {
        if dice_values[i] > 0 && dice_values[i + 1] > 0 && dice_values[i + 2] > 0 && dice_values[i
            + 3] > 0 {
            assert(run_from(dice_values@, i as int, 4));
            return SMALL_STRAIGHT_SCORE;
        }
        assert(!run_from(dice_values@, i as int, 4)) by {
            if run_from(dice_values@, i as int, 4) {
                assert(dice_values@[i as int] > 0);
                assert(dice_values@[i + 1] > 0);
                assert(dice_values@[i + 2] > 0);
                assert(dice_values@[i + 3] > 0);
            }
        }
        i += 1;
    }
    return 0;
}

/// The score for a large straight: 40 where five faces in a row are each
/// shown by a die, else nothing.
pub fn score_large_straight(dice_values: &[u8; 6]) -> (score: u16)
    ensures
        score == score_of(YahtzeeScoreCategory::LargeStraight, dice_values@),
{
    let mut i: usize = 0;
    while i < N_VALUES - 4
        invariant
            i <= 2,
            forall|first: int| 0 <= first < i ==> !#[trigger] run_from(dice_values@, first, 5),
        decreases 2 - i,
    {
        if dice_values[i] > 0 && dice_values[i + 1] > 0 && dice_values[i + 2] > 0 && dice_values[i
            + 3] > 0 && dice_values[i + 4] > 0 {
            assert(run_from(dice_values@, i as int, 5));
            return LARGE_STRAIGHT_SCORE;
        }
        assert(!run_from(dice_values@, i as int, 5)) by {
            if run_from(dice_values@, i as int, 5) {
                assert(dice_values@[i as int] > 0);
                assert(dice_values@[i + 1] > 0);
                assert(dice_values@[i + 2] > 0);
                assert(dice_values@[i + 3] > 0);
                assert(dice_values@[i + 4] > 0);
            }
        }
        i += 1;
    }
    return 0;
}

/// The score for five of a kind: 50 where some face is shown by exactly
/// five dice, else nothing.
pub fn score_yahtzee(dice_values: &[u8; 6]) -> (score: u16)
    ensures
        score == score_of(YahtzeeScoreCategory::Yahtzee, dice_values@),
{
    let mut i: usize = 0;
    while i < N_VALUES
        invariant
            i <= 6,
            forall|j: int| 0 <= j < i ==> #[trigger] dice_values[j] != 5,
        decreases 6 - i,
    {
        if dice_values[i] == 5 {
            return YAHTZEE_SCORE;
        }
        i += 1;
    }
    return 0;
}

/// The score in the category of chance: the sum of the six counts.
pub fn score_chance(dice_values: &[u8; 6]) -> (score: u16)
    ensures
        score == score_of(YahtzeeScoreCategory::Chance, dice_values@),
{
    sum_of_values(dice_values)
}

/// The score of the dice in `score_category`.
pub fn score_in(score_category: &YahtzeeScoreCategory, dice_values: &[u8; 6]) -> (score: u16)
    ensures
        score == score_of(*score_category, dice_values@),
{
    match score_category {
        YahtzeeScoreCategory::Ones => score_ones(dice_values),
        YahtzeeScoreCategory::Twos => score_twos(dice_values),
        YahtzeeScoreCategory::Threes => score_threes(dice_values),
        YahtzeeScoreCategory::Fours => score_fours(dice_values),
        YahtzeeScoreCategory::Fives => score_fives(dice_values),
        YahtzeeScoreCategory::Sixes => score_sixes(dice_values),
        YahtzeeScoreCategory::ThreeOfKind => score_three_of_a_kind(dice_values),
        YahtzeeScoreCategory::FourOfKind => score_four_of_a_kind(dice_values),
        YahtzeeScoreCategory::FullHouse => score_full_house(dice_values),
        YahtzeeScoreCategory::SmallStraight => score_small_straight(dice_values),
        YahtzeeScoreCategory::LargeStraight => score_large_straight(dice_values),
        YahtzeeScoreCategory::Yahtzee => score_yahtzee(dice_values),
        YahtzeeScoreCategory::Chance => score_chance(dice_values),
    }
}

/// The face on which a die lands when the generator gives `drawn` and the
/// die can land on the first `faces` faces, counted from 0.
pub open spec fn landing(drawn: u32, faces: usize) -> int {
    drawn as int % faces as int
}

/// Lets one die land: the number `drawn` picks one of the first `faces`
/// faces, and the count of that face grows by one. No other count changes.
pub fn land_die(dice_values: [u8; 6], drawn: u32, faces: usize) -> (thrown: [u8; 6])
    requires
        1 <= faces <= 6,
        dice_values[landing(drawn, faces)] < 255,
    ensures
        thrown[landing(drawn, faces)] == dice_values[landing(drawn, faces)] + 1,
        forall|i: int|
            0 <= i < 6 && i != landing(drawn, faces) ==> #[trigger] thrown[i] == dice_values[i],
        super::yahtzee_state::dice_total(thrown@) == super::yahtzee_state::dice_total(
            dice_values@,
        ) + 1,
{
    let face: usize = (drawn as usize) % faces;
    let mut thrown: [u8; 6] = dice_values;
    thrown[face] = thrown[face] + 1;
    thrown
}

/// Throws `count` dice and adds them to `dice_values`: for each die a
/// number is drawn from the generator, and the die lands as `land_die`
/// says. Where no die is thrown the generator is not touched.
pub fn throw_dice(rng: &mut ChaCha8Rng, dice_values: [u8; 6], count: usize, faces: usize) -> (thrown:
    [u8; 6])
    requires
        1 <= faces <= 6,
        super::yahtzee_state::dice_total(dice_values@) + count <= 255,
    ensures
        super::yahtzee_state::dice_total(thrown@) == super::yahtzee_state::dice_total(
            dice_values@,
        ) + count,
        forall|i: int| 0 <= i < 6 ==> #[trigger] thrown[i] >= dice_values[i],
        forall|i: int| faces <= i < 6 ==> #[trigger] thrown[i] == dice_values[i],
        count == 0 ==> thrown == dice_values && *final(rng) == *old(rng),
{
    let mut thrown: [u8; 6] = dice_values;
    let mut done: usize = 0;
    while done < count
        invariant
            done <= count,
            1 <= faces <= 6,
            super::yahtzee_state::dice_total(dice_values@) + count <= 255,
            super::yahtzee_state::dice_total(thrown@) == super::yahtzee_state::dice_total(
                dice_values@,
            ) + done,
            forall|i: int| 0 <= i < 6 ==> #[trigger] thrown[i] >= dice_values[i],
            forall|i: int| faces <= i < 6 ==> #[trigger] thrown[i] == dice_values[i],
            done == 0 ==> thrown == dice_values && *rng == *old(rng),
        decreases count - done,
    {
        let drawn: u32 = next_u32(rng);
        thrown = land_die(thrown, drawn, faces);
        done += 1;
    }
    thrown
}

/// Throws all five dice.
pub fn roll_dice(rng: &mut ChaCha8Rng) -> (dice_values: [u8; 6])
    ensures
        super::yahtzee_state::dice_total(dice_values@) == 5,
{
    let nothing: [u8; 6] = [0u8, 0u8, 0u8, 0u8, 0u8, 0u8];
    throw_dice(rng, nothing, N_DICE, N_VALUES)
}

/// Whether the dice `selected` can be held out of `dice`: of no face more
/// dice than show it.
pub open spec fn may_hold(dice: Seq<u8>, selected: Seq<u8>) -> bool {
    forall|i: int| 0 <= i < 6 ==> #[trigger] selected[i] <= dice[i]
}

/// Whether `action` is legal in `state`. Once every category has a score
/// nothing is. Before the third roll the player holds some of the dice and
/// throws the others again. At the third roll the player writes the roll
/// into a category without a score; but five of a kind, where the category
/// of their face has no score yet, go into that category or into the
/// five-of-a-kind category if that has no score.
pub open spec fn is_legal(state: &YahtzeeState, action: YahtzeeAction) -> bool {
    &&& state.spec_has_categories_left()
    &&& match action {
        YahtzeeAction::SelectDice { selected } => state.roll_number < 3 && may_hold(
            state.dice_values@,
            selected@,
        ),
        YahtzeeAction::SelectCategory { score_category } => state.roll_number >= 3 && {
            let k = score_category.spec_ordinal() as int;
            match state.spec_check_yahtzee() {
                Some(face) => if state.scores[face as int] is None {
                    k == face || (k == 11 && state.scores[11] is None)
                } else {
                    state.scores[k] is None
                },
                None => state.scores[k] is None,
            }
        },
    }
}

/// The legal actions of the player in `state`.
pub open spec fn legal_of(state: &YahtzeeState) -> Seq<Set<YahtzeeAction>> {
    seq![Set::new(|action: YahtzeeAction| is_legal(state, action))]
}

/// Whether `partial` holds of the faces below `upto` at most the dice that
/// show them, and none of the other faces.
pub open spec fn holds_below(dice: Seq<u8>, partial: Seq<u8>, upto: int) -> bool {
    &&& partial.len() == 6
    &&& forall|i: int| 0 <= i < 6 && i < upto ==> #[trigger] partial[i] <= dice[i]
    &&& forall|i: int| 0 <= i < 6 && i >= upto ==> #[trigger] partial[i] == 0
}

/// Whether `selected` stands in `list`.
pub open spec fn listed(list: Seq<[u8; 6]>, selected: Seq<u8>) -> bool {
    exists|k: int| 0 <= k < list.len() && (#[trigger] list[k])@ == selected
}

/// What stands in a list stands in it after another item is put at its end,
/// and so does that item.
pub proof fn lemma_listed_push(list: Seq<[u8; 6]>, item: [u8; 6], selected: Seq<u8>)
    ensures
        listed(list, selected) ==> listed(list.push(item), selected),
        listed(list.push(item), item@),
{
    let longer = list.push(item);
    if listed(list, selected) {
        let k = choose|k: int| 0 <= k < list.len() && (#[trigger] list[k])@ == selected;
        assert(longer[k]@ == selected);
    }
    assert(longer[list.len() as int]@ == item@);
}

/// Every way to hold dice out of `dice_values`: each selection that takes
/// of no face more dice than show it.
pub fn hold_choices(dice_values: &[u8; 6]) -> (choices: Vec<[u8; 6]>)
    ensures
        forall|k: int| 0 <= k < choices.len() ==> may_hold(dice_values@, (#[trigger] choices[k])@),
        forall|selected: [u8; 6]| #[trigger]
            may_hold(dice_values@, selected@) ==> exists|k: int|
                0 <= k < choices.len() && choices[k] == selected,
{
    let mut choices: Vec<[u8; 6]> = Vec::new();
    let nothing: [u8; 6] = [0u8, 0u8, 0u8, 0u8, 0u8, 0u8];
    assert(holds_below(dice_values@, nothing@, 0));
    choices.push(nothing);
    proof {
        assert forall|selected: Seq<u8>| #[trigger]
            holds_below(dice_values@, selected, 0) implies listed(choices@, selected) by {
            assert(choices@[0]@ =~= selected);
        }
    }
    let mut face: usize = 0;
    while face < N_VALUES
        invariant
            face <= 6,
            forall|k: int|
                0 <= k < choices.len() ==> holds_below(
                    dice_values@,
                    (#[trigger] choices[k])@,
                    face as int,
                ),
            forall|selected: Seq<u8>| #[trigger]
                holds_below(dice_values@, selected, face as int) ==> listed(choices@, selected),
        decreases 6 - face,
    {
        let mut longer: Vec<[u8; 6]> = Vec::new();
        let mut at: usize = 0;
        while at < choices.len()
            invariant
                face < 6,
                at <= choices.len(),
                forall|k: int|
                    0 <= k < choices.len() ==> holds_below(
                        dice_values@,
                        (#[trigger] choices[k])@,
                        face as int,
                    ),
                forall|k: int|
                    0 <= k < longer.len() ==> holds_below(
                        dice_values@,
                        (#[trigger] longer[k])@,
                        face + 1,
                    ),
                forall|before: int, held: u8|
                    0 <= before < at && held <= dice_values[face as int] ==> listed(
                        longer@,
                        #[trigger] choices[before]@.update(face as int, held),
                    ),
            decreases choices.len() - at,
        {
            let mut count: u16 = 0;
            while count <= dice_values[face] as u16
                invariant
                    face < 6,
                    at < choices.len(),
                    count <= dice_values[face as int] + 1,
                    holds_below(dice_values@, choices[at as int]@, face as int),
                    forall|k: int|
                        0 <= k < longer.len() ==> holds_below(
                            dice_values@,
                            (#[trigger] longer[k])@,
                            face + 1,
                        ),
                    forall|before: int, held: u8|
                        0 <= before < at && held <= dice_values[face as int] ==> listed(
                            longer@,
                            #[trigger] choices[before]@.update(face as int, held),
                        ),
                    forall|held: u8|
                        held < count ==> listed(
                            longer@,
                            #[trigger] choices[at as int]@.update(face as int, held),
                        ),
                decreases dice_values[face as int] + 1 - count,
            {
                let mut selected: [u8; 6] = choices[at];
                selected[face] = count as u8;
                let ghost shorter = longer@;
                longer.push(selected);
                proof {
                    assert(selected@ == choices[at as int]@.update(face as int, count as u8));
                    assert forall|before: int, held: u8|
                        0 <= before < at && held <= dice_values[face as int] implies listed(
                        longer@,
                        #[trigger] choices[before]@.update(face as int, held),
                    ) by {
                        lemma_listed_push(
                            shorter,
                            selected,
                            choices[before]@.update(face as int, held),
                        );
                    }
                    assert forall|held: u8| held < count + 1 implies listed(
                        longer@,
                        #[trigger] choices[at as int]@.update(face as int, held),
                    ) by {
                        lemma_listed_push(
                            shorter,
                            selected,
                            choices[at as int]@.update(face as int, held),
                        );
                    }
                }
                count += 1;
            }
            at += 1;
        }
        proof {
            assert forall|selected: Seq<u8>| #[trigger]
                holds_below(dice_values@, selected, face + 1) implies listed(
                longer@,
                selected,
            ) by {
                let base = selected.update(face as int, 0u8);
                assert(holds_below(dice_values@, base, face as int));
                let before = choose|before: int|
                    0 <= before < choices.len() && (#[trigger] choices[before])@ == base;
                let held = selected[face as int];
                assert(choices[before]@.update(face as int, held) =~= selected);
            }
        }
        choices = longer;
        face += 1;
    }
    proof {
        assert forall|selected: [u8; 6]| #[trigger]
            may_hold(dice_values@, selected@) implies exists|k: int|
            0 <= k < choices.len() && choices[k] == selected by {
            assert(holds_below(dice_values@, selected@, 6));
            let k = choose|k: int| 0 <= k < choices.len() && (#[trigger] choices[k])@ == selected@;
            assert(choices[k] =~= selected);
        }
    }
    choices
}

/// Gives the legal actions of the player in `state`.
pub fn legal_actions_in(state: &YahtzeeState) -> (legal_actions: LegalActions<YahtzeeAction>)
    ensures
        legal_actions@ == legal_of(state)[0],
        legal_actions.is_set(),
{
    let mut legal_actions: LegalActions<YahtzeeAction> = LegalActions::new();
    if state.has_categories_left() {
        if state.roll_number < 3 {
            let choices = hold_choices(&state.dice_values);
            let mut k: usize = 0;
            while k < choices.len()
                invariant
                    k <= choices.len(),
                    legal_actions.is_set(),
                    forall|action: YahtzeeAction|
                        legal_actions@.contains(action) <==> exists|j: int|
                            0 <= j < k && action == (YahtzeeAction::SelectDice {
                                selected: #[trigger] choices[j],
                            }),
                decreases choices.len() - k,
            {
                legal_actions.insert(YahtzeeAction::SelectDice { selected: choices[k] });
                k += 1;
            }
            proof {
                assert forall|action: YahtzeeAction|
                    legal_actions@.contains(action) == is_legal(state, action) by {
                    match action {
                        YahtzeeAction::SelectDice { selected } => {
                            if may_hold(state.dice_values@, selected@) {
                                let j = choose|j: int|
                                    0 <= j < choices.len() && choices[j] == selected;
                                assert(action == (YahtzeeAction::SelectDice {
                                    selected: choices[j],
                                }));
                            }
                        },
                        YahtzeeAction::SelectCategory { score_category } => {},
                    }
                }
            }
        } else {
            let yahtzee = state.check_yahtzee();
            let any_category: bool = match yahtzee {
                Some(face) => state.scores[face].is_some(),
                None => true,
            };
            if any_category {
                let mut x: usize = 0;
                while x < N_CATEGORIES
                    invariant
                        x <= 13,
                        legal_actions.is_set(),
                        forall|action: YahtzeeAction|
                            legal_actions@.contains(action) <==> {
                                &&& action is SelectCategory
                                &&& action->score_category.spec_ordinal() < x
                                &&& state.scores[action->score_category.spec_ordinal() as int]
                                    is None
                            },
                    decreases 13 - x,
                {
                    if state.scores[x].is_none() {
                        match YahtzeeScoreCategory::from_ordinal(x as i8) {
                            Some(score_category) => {
                                proof {
                                    assert forall|other: YahtzeeScoreCategory|
                                        other.spec_ordinal() == x implies other
                                        == score_category by {
                                        super::yahtzee_score_category::lemma_ordinal_round_trip(
                                            other,
                                            score_category,
                                        );
                                    }
                                }
                                legal_actions.insert(
                                    YahtzeeAction::SelectCategory { score_category },
                                );
                            },
                            None => {},
                        }
                    }
                    x += 1;
                }
                assert(legal_actions@ =~= legal_of(state)[0]);
            } else {
                let face: usize = match yahtzee {
                    Some(face) => face,
                    None => 0,
                };
                match YahtzeeScoreCategory::from_ordinal(face as i8) {
                    Some(score_category) => {
                        legal_actions.insert(YahtzeeAction::SelectCategory { score_category });
                    },
                    None => {},
                }
                if state.scores[YahtzeeScoreCategory::Yahtzee.index()].is_none() {
                    legal_actions.insert(
                        YahtzeeAction::SelectCategory {
                            score_category: YahtzeeScoreCategory::Yahtzee,
                        },
                    );
                }
                proof {
                    assert forall|action: YahtzeeAction|
                        legal_actions@.contains(action) == is_legal(state, action) by {
                        match action {
                            YahtzeeAction::SelectDice { selected } => {},
                            YahtzeeAction::SelectCategory { score_category } => {
                                super::yahtzee_score_category::lemma_ordinal_round_trip(
                                    score_category,
                                    YahtzeeScoreCategory::Yahtzee,
                                );
                                super::yahtzee_score_category::lemma_ordinal_round_trip(
                                    score_category,
                                    YahtzeeScoreCategory::spec_from_ordinal(face as i8)->0,
                                );
                            },
                        }
                    }
                }
            }
        }
    }
    assert(legal_actions@ =~= legal_of(state)[0]);
    legal_actions
}

/// The points of a category: its score, and nothing where none is written.
pub open spec fn points(score: Option<u16>) -> int {
    match score {
        Some(score) => score as int,
        None => 0,
    }
}

/// The sum of the points of the categories with the numbers below `upto`.
pub open spec fn points_below(scores: Seq<Option<u16>>, upto: int) -> int
    decreases upto,
{
    if upto <= 0 {
        0
    } else {
        points_below(scores, upto - 1) + points(scores[upto - 1])
    }
}

/// The score of a full card: the points of all categories, and a bonus of
/// 35 where the first six categories have 63 points or more.
pub open spec fn final_score(scores: Seq<Option<u16>>) -> int {
    points_below(scores, 13) + if points_below(scores, 6) >= 63 {
        35int
    } else {
        0int
    }
}

/// The reward in `state`: the score of the card once it is full, and
/// nothing before.
pub open spec fn rewards_of(state: &YahtzeeState) -> Seq<Reward> {
    seq![
        Reward(
            if state.spec_has_categories_left() {
                0isize
            } else {
                final_score(state.scores@) as isize
            },
        ),
    ]
}

/// Gives the reward in `state`.
pub fn score_card(state: &YahtzeeState) -> (rewards: Vec<Reward>)
    ensures
        rewards@ == rewards_of(state),
{
    let mut score: u32 = 0;
    if !state.has_categories_left() {
        let mut i: usize = 0;
        while i < N_VALUES
            invariant
                i <= 6,
                score == points_below(state.scores@, i as int),
                score <= 65535 * i,
            decreases 6 - i,
        {
            score = score + match state.scores[i] {
                Some(points) => points as u32,
                None => 0,
            };
            i += 1;
        }
        let upper: u32 = score;
        if score >= BONUS_THRESHOLD as u32 {
            score = score + BONUS_SCORE as u32;
        }
        while i < N_CATEGORIES
            invariant
                6 <= i <= 13,
                upper == points_below(state.scores@, 6),
                score == points_below(state.scores@, i as int) + if upper >= 63 {
                    35int
                } else {
                    0int
                },
                score <= 65535 * i + 35,
            decreases 13 - i,
        {
            score = score + match state.scores[i] {
                Some(points) => points as u32,
                None => 0,
            };
            i += 1;
        }
    }
    let mut rewards: Vec<Reward> = Vec::new();
    rewards.push(Reward(score as isize));
    assert(rewards@ =~= rewards_of(state));
    rewards
}

/// The score card of `state` after the bonus for five of a kind: where the
/// dice show five of a kind and the five-of-a-kind category has a score of
/// 50 or more, 100 is added to it.
pub open spec fn with_bonus(state: &YahtzeeState) -> Seq<Option<u16>> {
    match state.scores[11] {
        Some(score) => if state.spec_check_yahtzee() is Some && score >= 50 {
            state.scores@.update(11, Some((score + 100) as u16))
        } else {
            state.scores@
        },
        None => state.scores@,
    }
}

/// Whether `next` is a state that the joint action `actions` may lead to
/// from `state`. With no action nothing changes. Else the bonus for five of
/// a kind is given first. Holding dice leads to the next roll: the dice
/// held stay, the others are thrown again and land on one of the first five
/// faces. Choosing a category writes the score of the dice into it and
/// leads to the first roll of the next turn, with all five dice thrown.
pub open spec fn follows(
    state: &YahtzeeState,
    actions: Seq<Option<YahtzeeAction>>,
    next: &YahtzeeState,
) -> bool {
    match actions[0] {
        None => *next == *state,
        Some(YahtzeeAction::SelectDice { selected }) => {
            &&& next.scores@ == with_bonus(state)
            &&& next.roll_number == state.roll_number + 1
            &&& super::yahtzee_state::dice_total(next.dice_values@) == 5
            &&& forall|i: int| 0 <= i < 6 ==> #[trigger] next.dice_values[i] >= selected[i]
            &&& next.dice_values[5] == selected[5]
        },
        Some(YahtzeeAction::SelectCategory { score_category }) => {
            &&& next.scores@ == with_bonus(state).update(
                score_category.spec_ordinal() as int,
                Some(score_of(score_category, state.dice_values@) as u16),
            )
            &&& next.roll_number == 1
            &&& super::yahtzee_state::dice_total(next.dice_values@) == 5
        },
    }
}

/// The states in which a game may begin: the first roll of five dice, with
/// an empty score card.
pub open spec fn is_first_roll(state: &YahtzeeState) -> bool {
    &&& super::yahtzee_state::dice_total(state.dice_values@) == 5
    &&& state.roll_number == 1
    &&& forall|k: int| 0 <= k < 13 ==> (#[trigger] state.scores[k]) is None
}

/// Writing a score into a category fills one category more where the
/// category had no score, and leaves the number of categories that are
/// filled where it had one.
pub proof fn lemma_filled_after_write(scores: Seq<Option<u16>>, k: int, score: u16)
    requires
        scores.len() == 13,
        0 <= k < 13,
    ensures
        super::yahtzee_state::filled(scores.update(k, Some(score))) == super::yahtzee_state::filled(
            scores,
        ) + if scores[k] is None {
            1int
        } else {
            0int
        },
{
    let after = scores.update(k, Some(score));
    assert(after[0] == if k == 0 { Some(score) } else { scores[0] });
    assert(after[1] == if k == 1 { Some(score) } else { scores[1] });
    assert(after[2] == if k == 2 { Some(score) } else { scores[2] });
    assert(after[3] == if k == 3 { Some(score) } else { scores[3] });
    assert(after[4] == if k == 4 { Some(score) } else { scores[4] });
    assert(after[5] == if k == 5 { Some(score) } else { scores[5] });
    assert(after[6] == if k == 6 { Some(score) } else { scores[6] });
    assert(after[7] == if k == 7 { Some(score) } else { scores[7] });
    assert(after[8] == if k == 8 { Some(score) } else { scores[8] });
    assert(after[9] == if k == 9 { Some(score) } else { scores[9] });
    assert(after[10] == if k == 10 { Some(score) } else { scores[10] });
    assert(after[11] == if k == 11 { Some(score) } else { scores[11] });
    assert(after[12] == if k == 12 { Some(score) } else { scores[12] });
}

/// At most thirteen categories are filled.
pub proof fn lemma_filled_bound(scores: Seq<Option<u16>>)
    ensures
        0 <= super::yahtzee_state::filled(scores) <= 13,
{
}

/// Gives the score card of `state` after the bonus for five of a kind.
pub fn give_bonus(state: &YahtzeeState) -> (scores: [Option<u16>; 13])
    requires
        state.is_valid(),
    ensures
        scores@ == with_bonus(state),
        super::yahtzee_state::filled(scores@) == super::yahtzee_state::filled(state.scores@),
        forall|k: int| 0 <= k < 13 ==> (#[trigger] scores[k] is None) == (state.scores[k] is None),
        match scores[11] {
            Some(score) => score <= 50 + 100 * (3 * super::yahtzee_state::filled(state.scores@)
                + state.roll_number),
            None => true,
        },
{
    let mut scores: [Option<u16>; 13] = state.scores;
    let yahtzee = state.check_yahtzee();
    proof {
        lemma_filled_bound(state.scores@);
    }
    if yahtzee.is_some() {
        match scores[YahtzeeScoreCategory::Yahtzee.index()] {
            Some(yahtzee_score) => {
                if yahtzee_score >= YAHTZEE_SCORE {
                    proof {
                        lemma_filled_after_write(
                            state.scores@,
                            11,
                            (yahtzee_score + 100) as u16,
                        );
                    }
                    scores[YahtzeeScoreCategory::Yahtzee.index()] = Some(
                        yahtzee_score + YAHTZEE_BONUS,
                    );
                }
            },
            None => {},
        }
    }
    assert(scores@ =~= with_bonus(state));
    scores
}

/// Holds the dice `selected` and throws the others again.
pub fn hold_and_throw(rng: &mut ChaCha8Rng, selected: &[u8; 6]) -> (dice_values: [u8; 6])
    requires
        super::yahtzee_state::dice_total(selected@) <= 5,
    ensures
        super::yahtzee_state::dice_total(dice_values@) == 5,
        forall|i: int| 0 <= i < 6 ==> #[trigger] dice_values[i] >= selected[i],
        dice_values[5] == selected[5],
        super::yahtzee_state::dice_total(selected@) == 5 ==> dice_values == *selected,
        super::yahtzee_state::dice_total(selected@) == 5 ==> *final(rng) == *old(rng),
{
    let num_selected: usize = sum_of_values(selected) as usize;
    throw_dice(rng, *selected, N_DICE - num_selected, N_DICE)
}

/// Applies a legal action to `state`, throwing dice with `rng`.
pub fn apply_action(rng: &mut ChaCha8Rng, state: &YahtzeeState, action: &YahtzeeAction) -> (next:
    YahtzeeState)
    requires
        state.is_valid(),
        is_legal(state, *action),
    ensures
        next.is_valid(),
        follows(state, seq![Some(*action)], &next),
{
    let mut scores: [Option<u16>; 13] = give_bonus(state);
    proof {
        lemma_filled_bound(state.scores@);
    }
    match action {
        YahtzeeAction::SelectDice { selected } => {
            assert(super::yahtzee_state::dice_total(selected@) <= 5) by {
                assert(may_hold(state.dice_values@, selected@));
                assert(selected@[0] <= state.dice_values@[0]);
                assert(selected@[1] <= state.dice_values@[1]);
                assert(selected@[2] <= state.dice_values@[2]);
                assert(selected@[3] <= state.dice_values@[3]);
                assert(selected@[4] <= state.dice_values@[4]);
                assert(selected@[5] <= state.dice_values@[5]);
            }
            let dice_values: [u8; 6] = hold_and_throw(rng, selected);
            YahtzeeState {
                dice_values: dice_values,
                roll_number: state.roll_number + 1,
                scores: scores,
            }
        },
        YahtzeeAction::SelectCategory { score_category } => {
            let score: u16 = score_in(score_category, &state.dice_values);
            let ghost bonused = scores@;
            let place: usize = score_category.index();
            assert(scores[place as int] is None) by {
                assert(state.scores[place as int] is None);
            }
            proof {
                lemma_filled_after_write(bonused, place as int, score);
            }
            scores[place] = Some(score);
            assert(scores@ =~= bonused.update(place as int, Some(score)));
            let dice_values: [u8; 6] = roll_dice(rng);
            YahtzeeState { dice_values: dice_values, roll_number: 1, scores: scores }
        },
    }
}

/// An engine for the dice game. It throws the dice with the generator that
/// it is given.
pub struct YahtzeeSimulator<'a> {
    rng: &'a mut ChaCha8Rng,
}

impl<'a> YahtzeeSimulator<'a> {
    /// The generator with which the engine throws dice.
    pub closed spec fn generator(&self) -> ChaCha8Rng {
        *self.rng
    }

    /// An engine that throws dice with `rng`.
    pub fn new(rng: &'a mut ChaCha8Rng) -> (simulator: Self)
        ensures
            simulator.generator() == *old(rng),
    {
        YahtzeeSimulator { rng }
    }
}

impl<'a> Simulator<YahtzeeState, YahtzeeAction> for YahtzeeSimulator<'a> {
    open spec fn inv(&self) -> bool {
        true
    }

    open spec fn valid_state(state: &YahtzeeState) -> bool {
        state.is_valid()
    }

    open spec fn may_start(state: &YahtzeeState) -> bool {
        is_first_roll(state)
    }

    open spec fn legal_actions(state: &YahtzeeState) -> Seq<Set<YahtzeeAction>> {
        legal_of(state)
    }

    open spec fn rewards(state: &YahtzeeState) -> Seq<Reward> {
        rewards_of(state)
    }

    open spec fn may_follow(
        state: &YahtzeeState,
        actions: Seq<Option<YahtzeeAction>>,
        next: &YahtzeeState,
    ) -> bool {
        follows(state, actions, next)
    }

    fn generate_initial_state(&mut self) -> (state: YahtzeeState)
        ensures
            !crate::engine::simulator::nobody_can_move(legal_of(&state)),
    {
        let state = YahtzeeState {
            dice_values: roll_dice(self.rng),
            roll_number: 1,
            scores: [None; 13],
        };
        proof {
            assert(state.scores[0] is None);
            let nothing = YahtzeeAction::SelectDice { selected: [0u8, 0u8, 0u8, 0u8, 0u8, 0u8] };
            assert(is_legal(&state, nothing));
            assert(legal_of(&state)[0].contains(nothing));
        }
        state
    }

    fn calculate_rewards(&mut self, state: &YahtzeeState) -> (rewards: Vec<Reward>) {
        score_card(state)
    }

    fn calculate_legal_actions(&mut self, state: &YahtzeeState) -> (all: Vec<
        LegalActions<YahtzeeAction>,
    >) {
        let mut all: Vec<LegalActions<YahtzeeAction>> = Vec::new();
        all.push(legal_actions_in(state));
        all
    }

    fn state_transition(&mut self, state: &YahtzeeState, actions: &Vec<Option<YahtzeeAction>>) -> (next:
        YahtzeeState) {
        assert(!crate::engine::simulator::misplaced(legal_of(state), actions@, 0));
        match &actions[0] {
            Some(action) => {
                assert(legal_of(state)[0].contains(*action));
                let next = apply_action(self.rng, state, action);
                assert(seq![Some(*action)][0] == actions@[0]);
                next
            },
            None => *state,
        }
    }
}

} // verus!
