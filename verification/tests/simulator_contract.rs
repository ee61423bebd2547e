use abstract_game_engine::engine::reward::{adversarial_draw, Reward};
use abstract_game_engine::engine::simulator::{Action, LegalActions, Simulator, State};

#[derive(Clone, Debug, Hash, PartialEq, Eq)]
struct TestState;

impl State for TestState {
    fn to_string(&self) -> String {
        String::from("TestState")
    }
}

#[derive(Clone, Debug, Hash, PartialEq, Eq)]
struct TestAction;

impl Action for TestAction {
    fn same(&self, other: &Self) -> bool {
        self == other
    }

    fn to_string(&self) -> String {
        String::from("TestAction")
    }
}

#[derive(Clone, Debug, Hash, PartialEq, Eq)]
struct Numbered(u32);

impl Action for Numbered {
    fn same(&self, other: &Self) -> bool {
        self == other
    }

    fn to_string(&self) -> String {
        format!("#{}", self.0)
    }
}

struct TestSimulator {
    legal_actions: Vec<LegalActions<TestAction>>,
}

impl Simulator<TestState, TestAction> for TestSimulator {
    fn generate_initial_state(&mut self) -> TestState {
        TestState
    }

    fn calculate_rewards(&mut self, _: &TestState) -> Vec<Reward> {
        adversarial_draw()
    }

    fn calculate_legal_actions(&mut self, _: &TestState) -> Vec<LegalActions<TestAction>> {
        self.legal_actions.clone()
    }

    fn state_transition(&mut self, _: &TestState, _: &Vec<Option<TestAction>>) -> TestState {
        TestState
    }

    fn number_of_players(&mut self, _: &TestState) -> usize {
        2
    }
}

struct DerivedCount {
    legal_actions: Vec<LegalActions<TestAction>>,
}

impl Simulator<TestState, TestAction> for DerivedCount {
    fn generate_initial_state(&mut self) -> TestState {
        TestState
    }

    fn calculate_rewards(&mut self, _: &TestState) -> Vec<Reward> {
        adversarial_draw()
    }

    fn calculate_legal_actions(&mut self, _: &TestState) -> Vec<LegalActions<TestAction>> {
        self.legal_actions.clone()
    }

    fn state_transition(&mut self, _: &TestState, _: &Vec<Option<TestAction>>) -> TestState {
        TestState
    }
}

fn one_action() -> LegalActions<TestAction> {
    let mut legal_actions = LegalActions::new();
    legal_actions.insert(TestAction);
    legal_actions
}

#[test]
fn is_terminal_state_no_legal_actions() {
    let mut simulator = TestSimulator {
        legal_actions: vec![LegalActions::new(), LegalActions::new()],
    };
    assert!(simulator.is_terminal_state(&TestState));
}

#[test]
fn is_terminal_state_one_legal_action() {
    let legal_actions_p2 = {
        let mut legal_actions = LegalActions::new();
        legal_actions.insert(TestAction);
        legal_actions
    };
    let mut simulator = TestSimulator {
        legal_actions: vec![LegalActions::new(), legal_actions_p2],
    };
    assert!(!simulator.is_terminal_state(&TestState));
}

#[test]
fn check_valid_state_transition_actions_vec_too_small() {
    let mut simulator = TestSimulator {
        legal_actions: vec![LegalActions::new(), LegalActions::new()],
    };
    let actions = vec![];
    assert!(simulator.check_valid_state_transition(&TestState, &actions).is_err());
}

#[test]
fn check_valid_state_transition_actions_vec_too_large() {
    let mut simulator = TestSimulator {
        legal_actions: vec![LegalActions::new(), LegalActions::new()],
    };
    let actions = vec![None, None, None];
    assert!(simulator.check_valid_state_transition(&TestState, &actions).is_err());
}

#[test]
fn check_valid_state_transition_actions_vec_all_none() {
    let mut simulator = TestSimulator {
        legal_actions: vec![LegalActions::new(), LegalActions::new()],
    };
    let actions = vec![None, None];
    assert!(simulator.check_valid_state_transition(&TestState, &actions).is_ok());
}

#[test]
fn check_valid_state_transition_names_both_lengths() {
    let mut simulator = TestSimulator {
        legal_actions: vec![LegalActions::new(), LegalActions::new()],
    };
    let too_small: Vec<Option<TestAction>> = vec![];
    assert_eq!(
        simulator.check_valid_state_transition(&TestState, &too_small),
        Err(String::from("actions length is 0, while number of players is 2"))
    );
    let too_large = vec![None, None, None];
    assert_eq!(
        simulator.check_valid_state_transition(&TestState, &too_large),
        Err(String::from("actions length is 3, while number of players is 2"))
    );
}

#[test]
fn check_valid_state_transition_names_the_first_player_wrongly_served() {
    let mut simulator = TestSimulator {
        legal_actions: vec![LegalActions::new(), one_action()],
    };
    assert_eq!(
        simulator.check_valid_state_transition(&TestState, &vec![None, None]),
        Err(String::from("player 1 has illegal action"))
    );
    assert_eq!(
        simulator.check_valid_state_transition(&TestState, &vec![Some(TestAction), None]),
        Err(String::from("player 0 has illegal action"))
    );
    assert_eq!(
        simulator.check_valid_state_transition(&TestState, &vec![Some(TestAction), Some(TestAction)]),
        Err(String::from("player 0 has illegal action"))
    );
    assert_eq!(
        simulator.check_valid_state_transition(&TestState, &vec![None, Some(TestAction)]),
        Ok(())
    );
}

#[test]
fn number_of_players_is_derived_from_the_legal_actions() {
    let mut three = DerivedCount {
        legal_actions: vec![LegalActions::new(), one_action(), LegalActions::new()],
    };
    assert_eq!(three.number_of_players(&TestState), 3);
    assert!(!three.is_terminal_state(&TestState));
    assert_eq!(
        three.check_valid_state_transition(&TestState, &vec![None, None]),
        Err(String::from("actions length is 2, while number of players is 3"))
    );
    let mut none = DerivedCount { legal_actions: vec![] };
    assert_eq!(none.number_of_players(&TestState), 0);
    assert!(none.is_terminal_state(&TestState));
    assert_eq!(none.check_valid_state_transition(&TestState, &vec![]), Ok(()));
}

#[test]
fn legal_actions_is_a_set() {
    let mut legal_actions: LegalActions<Numbered> = LegalActions::new();
    assert!(legal_actions.is_empty());
    assert_eq!(legal_actions.len(), 0);
    assert!(!legal_actions.contains(&Numbered(4)));
    legal_actions.insert(Numbered(4));
    legal_actions.insert(Numbered(9));
    legal_actions.insert(Numbered(4));
    assert!(!legal_actions.is_empty());
    assert_eq!(legal_actions.len(), 2);
    assert!(legal_actions.contains(&Numbered(4)));
    assert!(legal_actions.contains(&Numbered(9)));
    assert!(!legal_actions.contains(&Numbered(5)));
    assert_eq!(legal_actions.get(0), &Numbered(4));
    assert_eq!(legal_actions.get(1), &Numbered(9));
}

#[test]
fn legal_actions_to_string_lists_one_action_to_a_line() {
    let mut legal_actions: LegalActions<Numbered> = LegalActions::new();
    assert_eq!(legal_actions.to_string(), "[\n]");
    legal_actions.insert(Numbered(12));
    legal_actions.insert(Numbered(7));
    assert_eq!(legal_actions.to_string(), "[\n#12\n#7\n]");
}
