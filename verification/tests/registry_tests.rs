use aetherless::config::FunctionConfig;
use aetherless::error::{AetherError, HardValidationError};
use aetherless::registry::FunctionRegistry;
use aetherless::state::FunctionState;
use aetherless::types::{FunctionId, HandlerPath, MemoryLimit, Port};

fn make_config(name: &str) -> FunctionConfig {
    FunctionConfig {
        id: FunctionId::new(name).unwrap(),
        memory_limit: MemoryLimit::from_mb(128).unwrap(),
        trigger_port: Port::new(8080).unwrap(),
        handler_path: HandlerPath::new_unchecked("/bin/echo"),
        environment: Vec::new(),
        timeout_ms: 30000,
    }
}

#[test]
fn test_register_and_get() {
    let mut registry = FunctionRegistry::new();
    let config = make_config("test-func");

    assert!(registry.register(config).is_ok());
    assert!(registry.contains(&FunctionId::new("test-func").unwrap()));
    assert_eq!(registry.len(), 1);
}

#[test]
fn test_duplicate_registration() {
    let mut registry = FunctionRegistry::new();
    let config1 = make_config("test-func");
    let config2 = make_config("test-func");

    assert!(registry.register(config1).is_ok());
    assert!(registry.register(config2).is_err());
}

#[test]
fn test_state_transitions() {
    let mut registry = FunctionRegistry::new();
    let config = make_config("test-func");
    let id = config.id.clone();

    registry.register(config).unwrap();
    assert_eq!(registry.get_state(&id).unwrap(), FunctionState::Uninitialized);

    registry.transition(&id, FunctionState::WarmSnapshot).unwrap();
    assert_eq!(registry.get_state(&id).unwrap(), FunctionState::WarmSnapshot);

    registry.transition(&id, FunctionState::Running).unwrap();
    assert_eq!(registry.get_state(&id).unwrap(), FunctionState::Running);
}

#[test]
fn test_functions_in_state() {
    let mut registry = FunctionRegistry::new();

    registry.register(make_config("func1")).unwrap();
    registry.register(make_config("func2")).unwrap();
    registry.register(make_config("func3")).unwrap();

    let id2 = FunctionId::new("func2").unwrap();
    registry.transition(&id2, FunctionState::WarmSnapshot).unwrap();

    let uninitialized = registry.functions_in_state(FunctionState::Uninitialized);
    assert_eq!(uninitialized.len(), 2);

    let warm = registry.functions_in_state(FunctionState::WarmSnapshot);
    assert_eq!(warm.len(), 1);
}

#[test]
fn unknown_function_is_reported() {
    let mut registry = FunctionRegistry::new();
    let id = FunctionId::new("ghost").unwrap();
    assert!(matches!(registry.get_state(&id), Err(AetherError::FunctionNotFound(_))));
    assert!(matches!(registry.transition(&id, FunctionState::Running), Err(AetherError::FunctionNotFound(_))));
    assert!(matches!(registry.unregister(&id), Err(AetherError::FunctionNotFound(_))));
    assert!(registry.is_empty());
}

#[test]
fn refused_transition_changes_nothing() {
    let mut registry = FunctionRegistry::new();
    let config = make_config("f");
    let id = config.id.clone();
    registry.register(config).unwrap();
    assert!(matches!(
        registry.transition(&id, FunctionState::Suspended),
        Err(AetherError::InvalidStateTransition(_))
    ));
    assert_eq!(registry.get_state(&id).unwrap(), FunctionState::Uninitialized);
    let metrics = registry.metrics();
    assert_eq!(metrics.len(), 1);
    assert_eq!(metrics[0].transition_count, 0);
}

#[test]
fn unregister_then_register_again() {
    let mut registry = FunctionRegistry::new();
    let config = make_config("f");
    let id = config.id.clone();
    registry.register(config).unwrap();
    registry.transition(&id, FunctionState::Running).unwrap();
    let entry = registry.unregister(&id).unwrap();
    assert_eq!(entry.state_machine.state(), FunctionState::Running);
    assert!(!registry.contains(&id));
    registry.register(make_config("f")).unwrap();
    assert_eq!(registry.get_state(&id).unwrap(), FunctionState::Uninitialized);
}

#[test]
fn update_config_keeps_the_lifecycle() {
    let mut registry = FunctionRegistry::new();
    let config = make_config("f");
    let id = config.id.clone();
    registry.register(config).unwrap();
    registry.transition(&id, FunctionState::Running).unwrap();
    let mut updated = make_config("f");
    updated.timeout_ms = 5000;
    registry.update_config(updated).unwrap();
    assert_eq!(registry.get_config(&id).unwrap().timeout_ms, 5000);
    assert_eq!(registry.get_state(&id).unwrap(), FunctionState::Running);
    assert!(registry.update_config(make_config("other")).is_err());
    let ids = registry.function_ids();
    assert_eq!(ids.len(), 1);
    assert_eq!(ids[0].as_str(), "f");
}

#[test]
fn metrics_report_each_function_once() {
    let mut registry = FunctionRegistry::new();
    registry.register(make_config("m-one")).unwrap();
    registry.register(make_config("m-two")).unwrap();
    registry.transition(&FunctionId::new("m-two").unwrap(), FunctionState::Running).unwrap();
    let mut metrics = registry.metrics();
    metrics.sort_by(|a, b| a.function_id.as_str().cmp(b.function_id.as_str()));
    assert_eq!(metrics.len(), 2);
    assert_eq!(metrics[0].current_state, "Uninitialized");
    assert_eq!(metrics[0].transition_count, 0);
    assert_eq!(metrics[1].current_state, "Running");
    assert_eq!(metrics[1].transition_count, 1);
}

#[test]
fn duplicate_registration_is_a_validation_error() {
    let mut registry = FunctionRegistry::new();
    registry.register(make_config("dup")).unwrap();
    match registry.register(make_config("dup")) {
        Err(AetherError::HardValidation(HardValidationError::DuplicateFunctionId { id })) => assert_eq!(id, "dup"),
        other => panic!("unexpected: {:?}", other),
    }
    assert_eq!(registry.len(), 1);
}

#[test]
fn registration_adds_one_entry() {
    let mut registry = FunctionRegistry::new();
    assert_eq!(registry.len(), 0);
    registry.register(make_config("a")).unwrap();
    assert_eq!(registry.len(), 1);
    registry.register(make_config("b")).unwrap();
    assert_eq!(registry.len(), 2);
    let id = FunctionId::new("b").unwrap();
    assert_eq!(registry.get_state(&id).unwrap(), FunctionState::Uninitialized);
}

#[test]
fn metrics_follow_transitions() {
    let mut registry = FunctionRegistry::new();
    registry.register(make_config("m")).unwrap();
    let id = FunctionId::new("m").unwrap();
    registry.transition(&id, FunctionState::Running).unwrap();
    let metrics = registry.metrics();
    assert_eq!(metrics.len(), 1);
    assert_eq!(metrics[0].function_id, "m");
    assert_eq!(metrics[0].current_state, "Running");
    assert_eq!(metrics[0].transition_count, 1);
}
