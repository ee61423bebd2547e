use abstract_game_engine::domains::yahtzee::constants::{N_CATEGORIES, N_DICE, N_VALUES};
use abstract_game_engine::domains::yahtzee::yahtzee_action::{same_counts, YahtzeeAction};
use abstract_game_engine::domains::yahtzee::yahtzee_score_category::YahtzeeScoreCategory;
use abstract_game_engine::domains::yahtzee::yahtzee_simulator::{
    apply_action, give_bonus, hold_and_throw, hold_choices, land_die, legal_actions_in, roll_dice,
    score_card, score_chance, score_fives, score_four_of_a_kind, score_fours, score_full_house,
    score_in, score_large_straight, score_ones, score_sixes, score_small_straight,
    score_three_of_a_kind, score_threes, score_twos, score_yahtzee, sum_of_values, throw_dice,
    YahtzeeSimulator,
};
use abstract_game_engine::domains::yahtzee::yahtzee_state::YahtzeeState;
use abstract_game_engine::engine::reward::Reward;
use abstract_game_engine::engine::simulator::{Action, LegalActions, Simulator, State};
use rand::SeedableRng;
use rand_chacha::ChaCha8Rng;

fn category_actions(legal_actions: &LegalActions<YahtzeeAction>) -> Vec<YahtzeeScoreCategory> {
    let mut categories = Vec::new();
    for score_category in YahtzeeScoreCategory::variants() {
        if legal_actions.contains(&YahtzeeAction::SelectCategory { score_category }) {
            categories.push(score_category);
        }
    }
    categories
}

#[test]
fn yahtzee_action_select_dice_to_string() {
    let action = YahtzeeAction::SelectDice { selected: [0; N_VALUES] };
    assert_eq!(action.to_string(), "[0, 0, 0, 0, 0, 0]");
}

#[test]
fn yahtzee_action_select_category_to_string() {
    let action = YahtzeeAction::SelectCategory {
        score_category: YahtzeeScoreCategory::Ones,
    };
    assert_eq!(action.to_string(), "Ones");
}

#[test]
fn yahtzee_action_to_string_shows_every_count() {
    let action = YahtzeeAction::SelectDice { selected: [1, 0, 2, 10, 0, 255] };
    assert_eq!(action.to_string(), "[1, 0, 2, 10, 0, 255]");
    let action = YahtzeeAction::SelectCategory {
        score_category: YahtzeeScoreCategory::LargeStraight,
    };
    assert_eq!(action.to_string(), "LargeStraight");
}

#[test]
fn yahtzee_action_same_compares_kind_and_content() {
    let hold = YahtzeeAction::SelectDice { selected: [1, 0, 0, 0, 0, 2] };
    let ones = YahtzeeAction::SelectCategory { score_category: YahtzeeScoreCategory::Ones };
    assert!(hold.same(&YahtzeeAction::SelectDice { selected: [1, 0, 0, 0, 0, 2] }));
    assert!(!hold.same(&YahtzeeAction::SelectDice { selected: [1, 0, 0, 0, 0, 1] }));
    assert!(!hold.same(&ones));
    assert!(!ones.same(&hold));
    assert!(ones.same(&YahtzeeAction::SelectCategory { score_category: YahtzeeScoreCategory::Ones }));
    assert!(!ones.same(&YahtzeeAction::SelectCategory { score_category: YahtzeeScoreCategory::Twos }));
    assert!(same_counts(&[0, 1, 2, 3, 4, 5], &[0, 1, 2, 3, 4, 5]));
    assert!(!same_counts(&[0, 1, 2, 3, 4, 5], &[1, 1, 2, 3, 4, 5]));
}

#[test]
fn has_categories_left_true() {
    let state = YahtzeeState {
        dice_values: [0; N_VALUES],
        roll_number: 1,
        scores: [None; N_CATEGORIES],
    };
    assert!(state.has_categories_left());
}

#[test]
fn has_categories_left_false() {
    let state = YahtzeeState {
        dice_values: [0; N_VALUES],
        roll_number: 1,
        scores: [Some(0); N_CATEGORIES],
    };
    assert!(!state.has_categories_left());
}

#[test]
fn has_categories_left_sees_the_last_category() {
    let mut scores = [Some(0); 13];
    scores[12] = None;
    let state = YahtzeeState { dice_values: [0; N_VALUES], roll_number: 1, scores };
    assert!(state.has_categories_left());
}

#[test]
fn check_yahtzee_none() {
    let state = YahtzeeState {
        dice_values: [1, 0, 1, 1, 2, 0],
        roll_number: 1,
        scores: [None; N_CATEGORIES],
    };
    assert_eq!(state.check_yahtzee(), None);
}

#[test]
fn check_yahtzee_threes() {
    let state = YahtzeeState {
        dice_values: [0, 0, 5, 0, 0, 0],
        roll_number: 1,
        scores: [None; N_CATEGORIES],
    };
    assert_eq!(state.check_yahtzee(), Some(2));
}

#[test]
fn check_yahtzee_finds_the_first_and_the_last_face() {
    let mut state = YahtzeeState { dice_values: [5, 0, 0, 0, 0, 0], roll_number: 1, scores: [None; 13] };
    assert_eq!(state.check_yahtzee(), Some(0));
    state.dice_values = [0, 0, 0, 0, 0, 5];
    assert_eq!(state.check_yahtzee(), Some(5));
    state.dice_values = [0, 0, 0, 0, 1, 4];
    assert_eq!(state.check_yahtzee(), None);
}

#[test]
fn yahtzee_state_to_string() {
    let state = YahtzeeState {
        dice_values: [0; N_VALUES],
        roll_number: 1,
        scores: [None; N_CATEGORIES],
    };
    let expected = "1 - [ 0 0 0 0 0 0 ]\nOnes: -\nTwos: -\nThrees: -\nFours: -\nFives: -\nSixes: -\nThreeOfKind: -\nFourOfKind: -\nFullHouse: -\nSmallStraight: -\nLargeStraight: -\nYahtzee: -\nChance: -";

    assert_eq!(state.to_string(), expected);
}

#[test]
fn yahtzee_state_to_string_shows_dice_and_scores() {
    let mut scores = [None; 13];
    scores[0] = Some(3);
    scores[8] = Some(25);
    scores[11] = Some(150);
    scores[12] = Some(0);
    let state = YahtzeeState { dice_values: [2, 0, 1, 0, 0, 2], roll_number: 3, scores };
    let expected = "3 - [ 2 0 1 0 0 2 ]\nOnes: 3\nTwos: -\nThrees: -\nFours: -\nFives: -\nSixes: -\nThreeOfKind: -\nFourOfKind: -\nFullHouse: 25\nSmallStraight: -\nLargeStraight: -\nYahtzee: 150\nChance: 0";
    assert_eq!(state.to_string(), expected);
}

#[test]
fn categories_are_numbered_in_order() {
    assert_eq!(YahtzeeScoreCategory::variant_count(), 13);
    let all = YahtzeeScoreCategory::variants();
    for number in 0..13i8 {
        let category = YahtzeeScoreCategory::from_ordinal(number).unwrap();
        assert_eq!(category.ordinal(), number);
        assert_eq!(category.index(), number as usize);
        assert_eq!(all[number as usize], category);
    }
    assert_eq!(YahtzeeScoreCategory::from_ordinal(13), None);
    assert_eq!(YahtzeeScoreCategory::from_ordinal(-1), None);
    assert_eq!(YahtzeeScoreCategory::Ones.ordinal(), 0);
    assert_eq!(YahtzeeScoreCategory::ThreeOfKind.ordinal(), 6);
    assert_eq!(YahtzeeScoreCategory::Yahtzee.ordinal(), 11);
    assert_eq!(YahtzeeScoreCategory::Chance.ordinal(), 12);
    assert_eq!(YahtzeeScoreCategory::FourOfKind.to_str(), "FourOfKind");
    assert_eq!(YahtzeeScoreCategory::SmallStraight.to_str(), "SmallStraight");
}

#[test]
fn face_categories_score_the_dice_of_their_face() {
    let dice = [1, 2, 0, 1, 1, 0];
    assert_eq!(score_ones(&dice), 1);
    assert_eq!(score_twos(&dice), 4);
    assert_eq!(score_threes(&dice), 0);
    assert_eq!(score_fours(&dice), 4);
    assert_eq!(score_fives(&dice), 5);
    assert_eq!(score_sixes(&dice), 0);
    assert_eq!(score_sixes(&[0, 0, 0, 0, 0, 5]), 30);
    assert_eq!(score_sixes(&[0, 0, 0, 0, 0, 255]), 1530);
}

#[test]
fn kinds_score_the_number_of_dice() {
    assert_eq!(sum_of_values(&[1, 0, 1, 1, 2, 0]), 5);
    assert_eq!(sum_of_values(&[255; 6]), 1530);
    assert_eq!(score_chance(&[0, 3, 0, 0, 2, 0]), 5);
    assert_eq!(score_three_of_a_kind(&[0, 3, 0, 0, 2, 0]), 5);
    assert_eq!(score_three_of_a_kind(&[0, 2, 1, 0, 2, 0]), 0);
    assert_eq!(score_three_of_a_kind(&[0, 0, 0, 0, 0, 4]), 4);
    assert_eq!(score_four_of_a_kind(&[0, 3, 0, 0, 2, 0]), 0);
    assert_eq!(score_four_of_a_kind(&[1, 0, 0, 4, 0, 0]), 5);
    assert_eq!(score_four_of_a_kind(&[0, 0, 0, 0, 0, 5]), 5);
}

#[test]
fn patterns_score_their_fixed_values() {
    assert_eq!(score_full_house(&[0, 3, 0, 0, 2, 0]), 25);
    assert_eq!(score_full_house(&[2, 0, 0, 0, 0, 3]), 25);
    assert_eq!(score_full_house(&[0, 0, 5, 0, 0, 0]), 0);
    assert_eq!(score_full_house(&[1, 1, 0, 3, 0, 0]), 0);
    assert_eq!(score_small_straight(&[1, 1, 1, 1, 0, 1]), 30);
    assert_eq!(score_small_straight(&[0, 1, 2, 1, 1, 0]), 30);
    assert_eq!(score_small_straight(&[0, 0, 1, 1, 1, 2]), 30);
    assert_eq!(score_small_straight(&[1, 1, 1, 0, 1, 1]), 0);
    assert_eq!(score_large_straight(&[1, 1, 1, 1, 1, 0]), 40);
    assert_eq!(score_large_straight(&[0, 1, 1, 1, 1, 1]), 40);
    assert_eq!(score_large_straight(&[1, 1, 1, 1, 0, 1]), 0);
    assert_eq!(score_yahtzee(&[0, 0, 0, 5, 0, 0]), 50);
    assert_eq!(score_yahtzee(&[0, 0, 0, 4, 1, 0]), 0);
}

#[test]
fn score_in_goes_by_the_category() {
    let dice = [0, 1, 1, 1, 1, 1];
    let expected = [0, 2, 3, 4, 5, 6, 0, 0, 0, 30, 40, 0, 5];
    for (number, category) in YahtzeeScoreCategory::variants().iter().enumerate() {
        assert_eq!(score_in(category, &dice), expected[number]);
    }
    let dice = [0, 0, 5, 0, 0, 0];
    let expected = [0, 0, 15, 0, 0, 0, 5, 5, 0, 0, 0, 50, 5];
    for (number, category) in YahtzeeScoreCategory::variants().iter().enumerate() {
        assert_eq!(score_in(category, &dice), expected[number]);
    }
}

#[test]
fn hold_choices_lists_every_selection_once() {
    let choices = hold_choices(&[1, 0, 1, 1, 2, 0]);
    assert_eq!(choices.len(), 24);
    for (place, choice) in choices.iter().enumerate() {
        assert!(choice[0] <= 1 && choice[1] == 0 && choice[2] <= 1);
        assert!(choice[3] <= 1 && choice[4] <= 2 && choice[5] == 0);
        assert!(!choices[..place].contains(choice));
    }
    assert!(choices.contains(&[0, 0, 0, 0, 0, 0]));
    assert!(choices.contains(&[1, 0, 1, 1, 2, 0]));
    assert_eq!(hold_choices(&[0, 0, 5, 0, 0, 0]).len(), 6);
    assert_eq!(hold_choices(&[0; 6]), vec![[0; 6]]);
}

#[test]
fn before_the_third_roll_dice_are_held() {
    let state = YahtzeeState { dice_values: [1, 0, 1, 1, 2, 0], roll_number: 2, scores: [None; 13] };
    let legal_actions = legal_actions_in(&state);
    assert_eq!(legal_actions.len(), 24);
    assert!(legal_actions.contains(&YahtzeeAction::SelectDice { selected: [0; 6] }));
    assert!(legal_actions.contains(&YahtzeeAction::SelectDice { selected: [1, 0, 0, 0, 2, 0] }));
    assert!(!legal_actions.contains(&YahtzeeAction::SelectDice { selected: [2, 0, 0, 0, 0, 0] }));
    assert!(!legal_actions.contains(&YahtzeeAction::SelectDice { selected: [0, 1, 0, 0, 0, 0] }));
    assert_eq!(category_actions(&legal_actions), vec![]);
}

#[test]
fn at_the_third_roll_a_free_category_is_chosen() {
    let mut scores = [None; 13];
    scores[0] = Some(1);
    scores[12] = Some(5);
    let state = YahtzeeState { dice_values: [1, 0, 1, 1, 2, 0], roll_number: 3, scores };
    let legal_actions = legal_actions_in(&state);
    assert_eq!(legal_actions.len(), 11);
    assert_eq!(category_actions(&legal_actions), YahtzeeScoreCategory::variants()[1..12].to_vec());
    assert!(!legal_actions.contains(&YahtzeeAction::SelectDice { selected: [0; 6] }));
}

#[test]
fn five_of_a_kind_go_to_their_face_or_to_the_yahtzee_category() {
    let state = YahtzeeState { dice_values: [0, 0, 5, 0, 0, 0], roll_number: 3, scores: [None; 13] };
    assert_eq!(
        category_actions(&legal_actions_in(&state)),
        vec![YahtzeeScoreCategory::Threes, YahtzeeScoreCategory::Yahtzee]
    );
    let mut scores = [None; 13];
    scores[11] = Some(50);
    let state = YahtzeeState { dice_values: [0, 0, 5, 0, 0, 0], roll_number: 3, scores };
    assert_eq!(category_actions(&legal_actions_in(&state)), vec![YahtzeeScoreCategory::Threes]);
    scores[2] = Some(15);
    let state = YahtzeeState { dice_values: [0, 0, 5, 0, 0, 0], roll_number: 3, scores };
    let mut expected = YahtzeeScoreCategory::variants().to_vec();
    expected.remove(11);
    expected.remove(2);
    assert_eq!(category_actions(&legal_actions_in(&state)), expected);
}

#[test]
fn full_card_has_no_legal_action() {
    let state = YahtzeeState { dice_values: [1, 0, 1, 1, 2, 0], roll_number: 1, scores: [Some(0); 13] };
    assert!(legal_actions_in(&state).is_empty());
    let mut rng = ChaCha8Rng::seed_from_u64(3);
    let mut simulator = YahtzeeSimulator::new(&mut rng);
    assert!(simulator.is_terminal_state(&state));
    assert_eq!(simulator.number_of_players(&state), 1);
    assert_eq!(simulator.check_valid_state_transition(&state, &vec![None]), Ok(()));
    assert_eq!(simulator.state_transition(&state, &vec![None]), state);
}

#[test]
fn reward_is_the_score_of_a_full_card() {
    let mut state = YahtzeeState { dice_values: [1, 0, 1, 1, 2, 0], roll_number: 1, scores: [Some(0); 13] };
    assert_eq!(score_card(&state), vec![Reward(0)]);
    state.scores = [
        Some(3), Some(6), Some(9), Some(12), Some(15), Some(17),
        Some(5), Some(5), Some(25), Some(30), Some(40), Some(50), Some(5),
    ];
    assert_eq!(score_card(&state), vec![Reward(62 + 160)]);
    state.scores[5] = Some(18);
    assert_eq!(score_card(&state), vec![Reward(63 + 35 + 160)]);
    state.scores[12] = None;
    assert_eq!(score_card(&state), vec![Reward(0)]);
    state.scores = [Some(65535); 13];
    assert_eq!(score_card(&state), vec![Reward(13 * 65535 + 35)]);
}

#[test]
fn dice_thrown_are_counted() {
    for seed in 0..50u64 {
        let mut rng = ChaCha8Rng::seed_from_u64(seed);
        let dice = roll_dice(&mut rng);
        assert_eq!(dice.iter().map(|&count| count as usize).sum::<usize>(), N_DICE);
        let more = throw_dice(&mut rng, [1, 0, 0, 0, 0, 7], 4, 3);
        assert_eq!(more.iter().map(|&count| count as usize).sum::<usize>(), 12);
        assert!(more[0] >= 1 && more[3] == 0 && more[4] == 0 && more[5] == 7);
        let held = hold_and_throw(&mut rng, &[0, 2, 0, 0, 0, 1]);
        assert_eq!(held.iter().map(|&count| count as usize).sum::<usize>(), N_DICE);
        assert!(held[1] >= 2 && held[5] == 1);
        assert_eq!(throw_dice(&mut rng, [1, 2, 3, 4, 5, 6], 0, 6), [1, 2, 3, 4, 5, 6]);
        assert_eq!(throw_dice(&mut rng, [0; 6], 9, 1), [9, 0, 0, 0, 0, 0]);
    }
}

#[test]
fn dice_thrown_land_on_every_face() {
    let mut rng = ChaCha8Rng::seed_from_u64(11);
    let mut seen = [false; 6];
    for _ in 0..200 {
        let dice = roll_dice(&mut rng);
        for face in 0..6 {
            seen[face] = seen[face] || dice[face] > 0;
        }
    }
    assert_eq!(seen, [true; 6]);
}

#[test]
fn bonus_is_given_for_five_of_a_kind_thrown_again() {
    let mut scores = [None; 13];
    scores[11] = Some(50);
    let state = YahtzeeState { dice_values: [0, 0, 5, 0, 0, 0], roll_number: 3, scores };
    let mut expected = scores;
    expected[11] = Some(150);
    assert_eq!(give_bonus(&state), expected);
    let other = YahtzeeState { dice_values: [0, 1, 4, 0, 0, 0], roll_number: 3, scores };
    assert_eq!(give_bonus(&other), scores);
    scores[11] = Some(0);
    let scratched = YahtzeeState { dice_values: [0, 0, 5, 0, 0, 0], roll_number: 3, scores };
    assert_eq!(give_bonus(&scratched), scores);
    let unscored = YahtzeeState { dice_values: [0, 0, 5, 0, 0, 0], roll_number: 3, scores: [None; 13] };
    assert_eq!(give_bonus(&unscored), [None; 13]);
}

#[test]
fn holding_dice_leads_to_the_next_roll() {
    let state = YahtzeeState { dice_values: [1, 0, 1, 1, 2, 0], roll_number: 1, scores: [None; 13] };
    for seed in 0..30u64 {
        let mut rng = ChaCha8Rng::seed_from_u64(seed);
        let action = YahtzeeAction::SelectDice { selected: [1, 0, 0, 0, 2, 0] };
        let next = apply_action(&mut rng, &state, &action);
        assert_eq!(next.roll_number, 2);
        assert_eq!(next.scores, [None; 13]);
        assert_eq!(next.dice_values.iter().sum::<u8>(), 5);
        assert!(next.dice_values[0] >= 1 && next.dice_values[4] >= 2);
        assert_eq!(next.dice_values[5], 0);
        let keep_all = YahtzeeAction::SelectDice { selected: [1, 0, 1, 1, 2, 0] };
        let same = apply_action(&mut rng, &state, &keep_all);
        assert_eq!(same.dice_values, [1, 0, 1, 1, 2, 0]);
        assert_eq!(same.roll_number, 2);
    }
}

#[test]
fn choosing_a_category_writes_the_score_and_starts_a_turn() {
    let mut scores = [None; 13];
    scores[11] = Some(50);
    let state = YahtzeeState { dice_values: [0, 0, 5, 0, 0, 0], roll_number: 3, scores };
    let mut rng = ChaCha8Rng::seed_from_u64(9);
    let action = YahtzeeAction::SelectCategory { score_category: YahtzeeScoreCategory::Threes };
    let next = apply_action(&mut rng, &state, &action);
    let mut expected = [None; 13];
    expected[2] = Some(15);
    expected[11] = Some(150);
    assert_eq!(next.scores, expected);
    assert_eq!(next.roll_number, 1);
    assert_eq!(next.dice_values.iter().sum::<u8>(), 5);
}

#[test]
fn a_game_of_thirteen_turns_fills_the_card() {
    for seed in 0..10u64 {
        let mut rng = ChaCha8Rng::seed_from_u64(seed);
        let mut simulator = YahtzeeSimulator::new(&mut rng);
        let mut state = simulator.generate_initial_state();
        assert_eq!(state.roll_number, 1);
        assert_eq!(state.scores, [None; 13]);
        assert_eq!(state.dice_values.iter().sum::<u8>(), 5);
        let mut transitions = 0;
        while !simulator.is_terminal_state(&state) {
            assert_eq!(simulator.calculate_rewards(&state), vec![Reward(0)]);
            let legal_actions = simulator.calculate_legal_actions(&state).remove(0);
            assert!(legal_actions.len() >= 1);
            let action = *legal_actions.get(legal_actions.len() - 1);
            let actions = vec![Some(action)];
            assert_eq!(simulator.check_valid_state_transition(&state, &actions), Ok(()));
            let next = simulator.state_transition(&state, &actions);
            match action {
                YahtzeeAction::SelectDice { .. } => assert_eq!(next.roll_number, state.roll_number + 1),
                YahtzeeAction::SelectCategory { .. } => assert_eq!(next.roll_number, 1),
            }
            state = next;
            transitions += 1;
        }
        assert_eq!(transitions, 39);
        assert!(!state.has_categories_left());
        let total: isize = simulator.calculate_rewards(&state)[0].0;
        let points: isize = state.scores.iter().map(|score| score.unwrap() as isize).sum();
        let upper: isize = state.scores[..6].iter().map(|score| score.unwrap() as isize).sum();
        assert_eq!(total, points + if upper >= 63 { 35 } else { 0 });
    }
}

#[test]
fn a_die_lands_on_the_face_that_the_number_drawn_picks() {
    assert_eq!(land_die([0; 6], 0, 6), [1, 0, 0, 0, 0, 0]);
    assert_eq!(land_die([0; 6], 5, 6), [0, 0, 0, 0, 0, 1]);
    assert_eq!(land_die([0; 6], 6, 6), [1, 0, 0, 0, 0, 0]);
    assert_eq!(land_die([1, 2, 3, 4, 5, 6], 9, 6), [1, 2, 3, 5, 5, 6]);
    assert_eq!(land_die([1, 2, 3, 4, 5, 6], 9, 5), [1, 2, 3, 4, 6, 6]);
    assert_eq!(land_die([1, 2, 3, 4, 5, 6], 5, 5), [2, 2, 3, 4, 5, 6]);
    assert_eq!(land_die([0, 0, 254, 0, 0, 0], u32::MAX, 1), [1, 0, 254, 0, 0, 0]);
    assert_eq!(land_die([0, 0, 254, 0, 0, 0], 4294967294, 6), [0, 0, 255, 0, 0, 0]);
}

#[test]
fn holding_every_die_throws_none() {
    let mut rng = ChaCha8Rng::seed_from_u64(21);
    let untouched = rng.clone();
    assert_eq!(hold_and_throw(&mut rng, &[0, 2, 0, 0, 3, 0]), [0, 2, 0, 0, 3, 0]);
    assert_eq!(throw_dice(&mut rng, [0, 0, 0, 0, 0, 5], 0, 6), [0, 0, 0, 0, 0, 5]);
    assert_eq!(rng, untouched);
    hold_and_throw(&mut rng, &[0, 2, 0, 0, 2, 0]);
    assert_ne!(rng, untouched);
}
