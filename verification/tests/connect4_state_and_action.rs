use abstract_game_engine::domains::connect4::connect4_action::Connect4Action;
use abstract_game_engine::domains::connect4::connect4_state::Connect4State;
use abstract_game_engine::domains::connect4::util::count_ones;
use abstract_game_engine::engine::simulator::{Action, State};

#[test]
fn connect4_action_to_string() {
    let action = Connect4Action { location: 0 };
    assert_eq!(action.to_string(), "(1)");
}

#[test]
fn connect4_action_to_string_counts_columns_from_one() {
    assert_eq!(Connect4Action { location: 6 }.to_string(), "(7)");
    assert_eq!(Connect4Action { location: 9 }.to_string(), "(10)");
    assert_eq!(Connect4Action { location: 255 }.to_string(), "(256)");
}

#[test]
fn connect4_action_same_compares_the_column() {
    assert!(Connect4Action { location: 3 }.same(&Connect4Action { location: 3 }));
    assert!(!Connect4Action { location: 3 }.same(&Connect4Action { location: 4 }));
}

#[test]
fn connect4_state_to_string_empty_board() {
    let state = Connect4State { bit_board: [0, 0] };
    let expected = "-------\n\
                          -------\n\
                          -------\n\
                          -------\n\
                          -------\n\
                          -------";
    assert_eq!(state.to_string(), expected);
}

#[test]
fn connect4_state_to_string() {
    let state = Connect4State { bit_board: [0b10_0000001_0000000_0000000_0000000, 0b1_0000000_0000000_0000001_0000000] };
    let expected = "-O-XO--\n\
                          ----X--\n\
                          -------\n\
                          -------\n\
                          -------\n\
                          -------";
    assert_eq!(state.to_string(), expected);
}

#[test]
fn connect4_state_to_string_shows_corners() {
    let state = Connect4State { bit_board: [1 | 1 << 47, 1 << 5 | 1 << 42] };
    let expected = "X-----O\n\
                          -------\n\
                          -------\n\
                          -------\n\
                          -------\n\
                          O-----X";
    assert_eq!(state.to_string(), expected);
}

#[test]
fn connect4_state_to_string_begins_with_the_bottom_row() {
    let state = Connect4State { bit_board: [0b1011, 0b0100 | 1 << 7] };
    let expected = "XO-----\n\
                          X------\n\
                          O------\n\
                          X------\n\
                          -------\n\
                          -------";
    assert_eq!(state.to_string(), expected);
}

#[test]
fn player_1_turn_empty() {
    let state = Connect4State { bit_board: [0, 0] };
    assert_eq!(state.player_1_turn(), true);
}

#[test]
fn player_1_turn_goes_by_the_piece_counts() {
    assert_eq!(Connect4State { bit_board: [1, 0] }.player_1_turn(), false);
    assert_eq!(Connect4State { bit_board: [1, 1 << 7] }.player_1_turn(), true);
    assert_eq!(Connect4State { bit_board: [1, 1 << 7 | 1 << 14] }.player_1_turn(), true);
}

#[test]
fn same_position_compares_both_boards() {
    let state = Connect4State { bit_board: [1, 1 << 7] };
    assert!(state.same_position(&Connect4State { bit_board: [1, 1 << 7] }));
    assert!(!state.same_position(&Connect4State { bit_board: [1 << 7, 1] }));
    assert!(!state.same_position(&Connect4State { bit_board: [1, 0] }));
}

#[test]
fn count_ones_empty() {
    assert_eq!(count_ones(0), 0);
}

#[test]
fn count_ones_one() {
    assert_eq!(count_ones(1), 1);
}

#[test]
fn count_ones_two() {
    assert_eq!(count_ones(2), 1);
}

#[test]
fn count_ones_three() {
    assert_eq!(count_ones(3), 2);
}

#[test]
fn count_ones_counts_every_bit() {
    assert_eq!(count_ones(u64::MAX), 64);
    assert_eq!(count_ones(1 << 63), 1);
    assert_eq!(count_ones(0xfdfb_f7ef_dfbf), 42);
}
