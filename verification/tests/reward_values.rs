use abstract_game_engine::engine::reward::{
    adversarial_draw, adversarial_p1_loss, adversarial_p1_win, copy_rewards, Reward,
};

#[test]
fn reward_adversarial_reward_is_ordered_win_draw_loss() {
    assert!(Reward::win().0 > Reward::draw().0);
    assert!(Reward::draw().0 > Reward::loss().0);
    assert!(Reward::win().0 > Reward::loss().0);
}

#[test]
fn reward_values_are_one_zero_and_minus_one() {
    assert_eq!(Reward::win(), Reward(1));
    assert_eq!(Reward::draw(), Reward(0));
    assert_eq!(Reward::loss(), Reward(-1));
}

#[test]
fn adversarial_rewards_list_the_first_player_first() {
    assert_eq!(adversarial_draw(), vec![Reward(0), Reward(0)]);
    assert_eq!(adversarial_p1_win(), vec![Reward(1), Reward(-1)]);
    assert_eq!(adversarial_p1_loss(), vec![Reward(-1), Reward(1)]);
}

#[test]
fn copy_rewards_keeps_every_reward() {
    let rewards = vec![Reward(3), Reward(-7), Reward(0)];
    assert_eq!(copy_rewards(&rewards), rewards);
    assert_eq!(copy_rewards(&Vec::new()), Vec::<Reward>::new());
}
