use abstract_game_engine::domains::connect4::connect4_action::Connect4Action;
use abstract_game_engine::engine::simulator::{duplicate_all, LegalActions};
use abstract_game_engine::text::{decimal_text, digit_text};

fn columns(list: &[u8]) -> LegalActions<Connect4Action> {
    let mut legal_actions = LegalActions::new();
    for &column in list {
        legal_actions.insert(Connect4Action { location: column });
    }
    legal_actions
}

fn listing(legal_actions: &LegalActions<Connect4Action>) -> Vec<u8> {
    legal_actions.iter().map(|action| action.location).collect()
}

#[test]
fn digit_text_shows_one_digit() {
    let expected = ["0", "1", "2", "3", "4", "5", "6", "7", "8", "9"];
    for digit in 0..10u64 {
        assert_eq!(digit_text(digit), expected[digit as usize]);
    }
}

#[test]
fn decimal_text_shows_a_number_without_leading_zeros() {
    assert_eq!(decimal_text(0), "0");
    assert_eq!(decimal_text(7), "7");
    assert_eq!(decimal_text(10), "10");
    assert_eq!(decimal_text(42), "42");
    assert_eq!(decimal_text(1005), "1005");
    assert_eq!(decimal_text(u64::MAX), "18446744073709551615");
}

#[test]
fn iter_goes_through_the_members_in_the_order_they_came() {
    let legal_actions = columns(&[4, 1, 6, 1, 4, 0]);
    assert_eq!(listing(&legal_actions), vec![4, 1, 6, 0]);
    assert_eq!(listing(&columns(&[])), Vec::<u8>::new());
}

#[test]
fn take_gives_the_member_at_its_place() {
    assert_eq!(columns(&[4, 1, 6]).take(0), Connect4Action { location: 4 });
    assert_eq!(columns(&[4, 1, 6]).take(1), Connect4Action { location: 1 });
    assert_eq!(columns(&[4, 1, 6]).take(2), Connect4Action { location: 6 });
}

#[test]
fn duplicate_keeps_the_members_and_their_order() {
    let legal_actions = columns(&[4, 1, 6]);
    let copy = legal_actions.duplicate();
    assert_eq!(listing(&copy), vec![4, 1, 6]);
    assert_eq!(listing(&legal_actions), vec![4, 1, 6]);
    let sets = vec![columns(&[2]), columns(&[]), columns(&[5, 3])];
    let copies = duplicate_all(&sets);
    assert_eq!(copies.len(), 3);
    assert_eq!(listing(&copies[0]), vec![2]);
    assert_eq!(listing(&copies[1]), Vec::<u8>::new());
    assert_eq!(listing(&copies[2]), vec![5, 3]);
}

#[test]
fn legal_actions_of_columns_are_shown_from_one() {
    assert_eq!(columns(&[0, 6]).to_string(), "[\n(1)\n(7)\n]");
}
