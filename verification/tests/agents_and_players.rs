use abstract_game_engine::domains::connect4::connect4_action::Connect4Action;
use abstract_game_engine::domains::connect4::connect4_simulator::Connect4Simulator;
use abstract_game_engine::domains::connect4::connect4_state::Connect4State;
use abstract_game_engine::engine::agent::{
    find_typed_action, select_random_action, Agent, DefaultAgents, IoAgent, RandomAgent,
};
use abstract_game_engine::engine::initial_state_generator::InitialStateGenerator;
use abstract_game_engine::engine::simulator::{LegalActions, Simulator};
use abstract_game_engine::player::{HumanPlayer, Player, RandomPlayer};
use rand::SeedableRng;
use rand_chacha::ChaCha8Rng;

const DRAWN_GAME: [u8; 42] = [
    5, 3, 2, 3, 1, 5, 3, 1, 0, 1, 4, 1, 2, 5, 0, 5, 6, 6, 2, 0, 6, 0, 4, 2, 3, 0, 3, 4, 2, 3, 2,
    6, 0, 4, 1, 1, 5, 4, 4, 5, 6, 6,
];

fn action_for_mover(state: &Connect4State, action: Connect4Action) -> Vec<Option<Connect4Action>> {
    if state.player_1_turn() {
        vec![Some(action), None]
    } else {
        vec![None, Some(action)]
    }
}

fn legal_columns(list: &[u8]) -> LegalActions<Connect4Action> {
    let mut legal_actions = LegalActions::new();
    for &column in list {
        legal_actions.insert(Connect4Action { location: column });
    }
    legal_actions
}

#[test]
fn random_agent_selects_a_legal_action() {
    for seed in 0..40u64 {
        let mut simulator = Connect4Simulator::new();
        let mut agent = RandomAgent::new(ChaCha8Rng::seed_from_u64(seed));
        let mut state = Simulator::generate_initial_state(&mut simulator);
        let mut moves = 0;
        while !simulator.is_terminal_state(&state) {
            let turn = if state.player_1_turn() { 0 } else { 1 };
            let action: Connect4Action = agent.select_action(turn, &state, &mut simulator);
            assert!(simulator.calculate_legal_actions(&state)[turn].contains(&action));
            state = simulator.state_transition(&state, &action_for_mover(&state, action));
            moves += 1;
        }
        assert!(moves >= 7 && moves <= 42);
        assert_eq!(
            (state.bit_board[0] | state.bit_board[1]).count_ones(),
            moves
        );
    }
}

#[test]
fn random_agent_takes_the_only_legal_action() {
    let mut simulator = Connect4Simulator::new();
    let mut state = Simulator::generate_initial_state(&mut simulator);
    for &column in &DRAWN_GAME[..41] {
        let action = Connect4Action { location: column };
        state = simulator.state_transition(&state, &action_for_mover(&state, action));
    }
    let turn = if state.player_1_turn() { 0 } else { 1 };
    for seed in 0..20u64 {
        let mut rng = ChaCha8Rng::seed_from_u64(seed);
        let action: Connect4Action = select_random_action(&mut rng, turn, &state, &mut simulator);
        assert_eq!(action, Connect4Action { location: 6 });
    }
}

#[test]
fn random_agent_reaches_every_legal_action() {
    let mut simulator = Connect4Simulator::new();
    let state = Simulator::generate_initial_state(&mut simulator);
    let mut rng = ChaCha8Rng::seed_from_u64(1);
    let mut seen = [false; 7];
    for _ in 0..400 {
        let action: Connect4Action = select_random_action(&mut rng, 0, &state, &mut simulator);
        seen[action.location as usize] = true;
    }
    assert_eq!(seen, [true; 7]);
}

#[test]
fn typed_action_is_found_by_its_text() {
    assert_eq!(
        find_typed_action(legal_columns(&[0, 2, 5]), "(3)"),
        Some(Connect4Action { location: 2 })
    );
    assert_eq!(
        find_typed_action(legal_columns(&[0, 2, 5]), "(1)"),
        Some(Connect4Action { location: 0 })
    );
    assert_eq!(
        find_typed_action(legal_columns(&[0, 2, 5]), "(6)"),
        Some(Connect4Action { location: 5 })
    );
}

#[test]
fn typed_action_is_trimmed_before_it_is_looked_up() {
    assert_eq!(
        find_typed_action(legal_columns(&[0, 2, 5]), "  (3)\n"),
        Some(Connect4Action { location: 2 })
    );
    assert_eq!(
        find_typed_action(legal_columns(&[0, 2, 5]), "\t(6) \r\n"),
        Some(Connect4Action { location: 5 })
    );
    assert_eq!(
        find_typed_action(legal_columns(&[0, 2, 5]), "\u{a0}(1)\u{3000}"),
        Some(Connect4Action { location: 0 })
    );
}

#[test]
fn typed_action_must_match_a_legal_action_exactly() {
    assert_eq!(find_typed_action(legal_columns(&[0, 2, 5]), "(2)"), None);
    assert_eq!(find_typed_action(legal_columns(&[0, 2, 5]), "3"), None);
    assert_eq!(find_typed_action(legal_columns(&[0, 2, 5]), "( 3 )"), None);
    assert_eq!(find_typed_action(legal_columns(&[0, 2, 5]), "(3) x"), None);
    assert_eq!(find_typed_action(legal_columns(&[0, 2, 5]), ""), None);
    assert_eq!(find_typed_action(legal_columns(&[]), "(1)"), None);
}

#[test]
fn io_agent_reads_only_the_actions_of_the_player_to_move() {
    let mut simulator = Connect4Simulator::new();
    let state = Simulator::generate_initial_state(&mut simulator);
    let agent = IoAgent::new();
    let selected: Option<Connect4Action> = agent.read_action(0, &state, &mut simulator, " (4)\n");
    assert_eq!(selected, Some(Connect4Action { location: 3 }));
    let selected: Option<Connect4Action> = agent.read_action(0, &state, &mut simulator, "(8)\n");
    assert_eq!(selected, None);
    let selected: Option<Connect4Action> = agent.read_action(1, &state, &mut simulator, "(4)\n");
    assert_eq!(selected, None);
}

#[test]
fn default_agents_have_names() {
    assert_eq!(DefaultAgents::Io.to_string(), "Io Agent");
    assert_eq!(
        DefaultAgents::Random(ChaCha8Rng::seed_from_u64(0)).to_string(),
        "Random Agent"
    );
}

#[test]
fn players_keep_their_numbers() {
    let human = HumanPlayer::new(3, IoAgent::new());
    assert_eq!(human.get_id(), 3);
    let random = RandomPlayer::new(0, RandomAgent::new(ChaCha8Rng::seed_from_u64(5)));
    assert_eq!(random.get_id(), 0);
    let expected = RandomAgent::new(ChaCha8Rng::seed_from_u64(5));
    assert_eq!(random.agent.rng, expected.rng);
}

#[test]
fn initial_state_generator_gives_the_empty_board() {
    let simulator = Connect4Simulator::new();
    let state = InitialStateGenerator::generate_initial_state(&simulator);
    assert_eq!(state, Connect4State { bit_board: [0, 0] });
}
