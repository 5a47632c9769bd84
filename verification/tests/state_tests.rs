use aetherless::state::{FunctionState, FunctionStateMachine, StateMachineMetrics};
use aetherless::error::StateTransitionError;
use aetherless::types::FunctionId;

fn make_function_id() -> FunctionId {
    FunctionId::new("test-function").unwrap()
}

#[test]
fn test_initial_state() {
    let sm = FunctionStateMachine::new(make_function_id());
    assert_eq!(sm.state(), FunctionState::Uninitialized);
    assert_eq!(sm.transition_count(), 0);
}

#[test]
fn test_valid_transitions() {
    let mut sm = FunctionStateMachine::new(make_function_id());

    assert!(sm.transition_to(FunctionState::WarmSnapshot).is_ok());
    assert_eq!(sm.state(), FunctionState::WarmSnapshot);
    assert_eq!(sm.transition_count(), 1);

    assert!(sm.transition_to(FunctionState::Running).is_ok());
    assert_eq!(sm.state(), FunctionState::Running);

    assert!(sm.transition_to(FunctionState::Suspended).is_ok());
    assert_eq!(sm.state(), FunctionState::Suspended);

    assert!(sm.transition_to(FunctionState::Running).is_ok());
    assert_eq!(sm.state(), FunctionState::Running);
}

#[test]
fn test_invalid_transitions() {
    let mut sm = FunctionStateMachine::new(make_function_id());
    assert!(sm.transition_to(FunctionState::Suspended).is_err());
    assert_eq!(sm.state(), FunctionState::Uninitialized);
}

#[test]
fn test_is_invokable() {
    let mut sm = FunctionStateMachine::new(make_function_id());
    assert!(!sm.is_invokable());

    sm.transition_to(FunctionState::WarmSnapshot).unwrap();
    assert!(sm.has_warm_snapshot());
    assert!(sm.is_invokable());

    sm.transition_to(FunctionState::Running).unwrap();
    assert!(sm.is_invokable());
}

#[test]
fn test_state_machine_transitions() {
    let func_id = FunctionId::new("test-func").unwrap();
    let mut sm = FunctionStateMachine::new(func_id);
    assert_eq!(sm.state(), FunctionState::Uninitialized);

    sm.transition_to(FunctionState::WarmSnapshot).unwrap();
    assert_eq!(sm.state(), FunctionState::WarmSnapshot);

    sm.transition_to(FunctionState::Running).unwrap();
    assert_eq!(sm.state(), FunctionState::Running);

    sm.transition_to(FunctionState::Suspended).unwrap();
    assert_eq!(sm.state(), FunctionState::Suspended);
}

#[test]
fn no_state_transitions_to_itself() {
    for s in [
        FunctionState::Uninitialized,
        FunctionState::WarmSnapshot,
        FunctionState::Running,
        FunctionState::Suspended,
    ] {
        assert!(!s.can_transition_to(s));
    }
}

#[test]
fn only_running_can_be_suspended() {
    assert!(FunctionState::Running.can_transition_to(FunctionState::Suspended));
    assert!(!FunctionState::Uninitialized.can_transition_to(FunctionState::Suspended));
    assert!(!FunctionState::WarmSnapshot.can_transition_to(FunctionState::Suspended));
}

#[test]
fn refused_transition_reports_both_states_and_keeps_count() {
    let mut sm = FunctionStateMachine::new(make_function_id());
    match sm.transition_to(FunctionState::Suspended) {
        Err(StateTransitionError::InvalidTransition { function_id, from, to }) => {
            assert_eq!(function_id.as_str(), "test-function");
            assert_eq!(from, "Uninitialized");
            assert_eq!(to, "Suspended");
        }
        _ => panic!("expected an invalid transition"),
    }
    assert_eq!(sm.transition_count(), 0);
}

#[test]
fn state_names_and_metrics() {
    assert_eq!(FunctionState::WarmSnapshot.name(), "WarmSnapshot");
    let mut sm = FunctionStateMachine::new(make_function_id());
    sm.transition_to(FunctionState::Running).unwrap();
    let m = StateMachineMetrics::from_state_machine(&sm);
    assert_eq!(m.function_id, "test-function");
    assert_eq!(m.current_state, "Running");
    assert_eq!(m.transition_count, 1);
}

#[test]
fn transition_count_counts_only_allowed_transitions() {
    let mut sm = FunctionStateMachine::new(make_function_id());
    let targets = [
        FunctionState::Running,
        FunctionState::Running,
        FunctionState::Suspended,
        FunctionState::Uninitialized,
        FunctionState::Suspended,
    ];
    let mut allowed = 0u64;
    for t in targets {
        if sm.transition_to(t).is_ok() {
            allowed += 1;
        }
    }
    assert_eq!(allowed, 3);
    assert_eq!(sm.transition_count(), 3);
    assert_eq!(sm.state(), FunctionState::Uninitialized);
    assert_eq!(sm.function_id().as_str(), "test-function");
}
