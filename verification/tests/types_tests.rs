use aetherless::error::HardValidationError;
use aetherless::types::{
    FunctionId, HandlerPath, MemoryLimit, Port, ProcessId, MAX_MEMORY_LIMIT, MIN_MEMORY_LIMIT,
};

#[test]
fn test_function_id_valid() {
    assert!(FunctionId::new("my-function").is_ok());
    assert!(FunctionId::new("function_123").is_ok());
    assert!(FunctionId::new("MyFunc").is_ok());
}

#[test]
fn test_function_id_invalid() {
    assert!(FunctionId::new("").is_err());
    assert!(FunctionId::new(&"a".repeat(65)).is_err());
    assert!(FunctionId::new("func@name").is_err());
    assert!(FunctionId::new("func name").is_err());
}

#[test]
fn test_port_valid() {
    assert!(Port::new(8080).is_ok());
    assert!(Port::new(1).is_ok());
    assert!(Port::new(65535).is_ok());
}

#[test]
fn test_port_invalid() {
    assert!(Port::new(0).is_err());
}

#[test]
fn test_memory_limit_valid() {
    assert!(MemoryLimit::from_mb(128).is_ok());
    assert!(MemoryLimit::new(MIN_MEMORY_LIMIT).is_ok());
    assert!(MemoryLimit::new(MAX_MEMORY_LIMIT).is_ok());
}

#[test]
fn test_memory_limit_invalid() {
    assert!(MemoryLimit::new(0).is_err());
    assert!(MemoryLimit::new(MIN_MEMORY_LIMIT - 1).is_err());
    assert!(MemoryLimit::new(MAX_MEMORY_LIMIT + 1).is_err());
}

#[test]
fn test_process_id_valid() {
    assert!(ProcessId::new(1).is_ok());
    assert!(ProcessId::new(12345).is_ok());
}

#[test]
fn test_process_id_invalid() {
    assert!(ProcessId::new(0).is_err());
}

#[test]
fn function_id_of_exactly_sixty_four_bytes_is_accepted() {
    let id = "b".repeat(64);
    let f = FunctionId::new(&id).unwrap();
    assert_eq!(f.as_str(), id.as_str());
}

#[test]
fn function_id_error_names_the_field_and_value() {
    match FunctionId::new("bad id") {
        Err(HardValidationError::InvalidFieldValue { field, value, .. }) => {
            assert_eq!(field, "function_id");
            assert_eq!(value, "bad id");
        }
        _ => panic!("expected an invalid field value"),
    }
}

#[test]
fn memory_limit_converts_megabytes() {
    let m = MemoryLimit::from_mb(128).unwrap();
    assert_eq!(m.bytes(), 128 * 1024 * 1024);
    assert_eq!(m.megabytes(), 128);
    assert!(MemoryLimit::from_mb(0).is_err());
    assert!(MemoryLimit::from_mb(16 * 1024 + 1).is_err());
}

#[test]
fn port_and_pid_keep_their_values() {
    assert_eq!(Port::new(3000).unwrap().value(), 3000);
    assert_eq!(ProcessId::new(42).unwrap().value(), 42);
}

#[test]
fn handler_path_inspection_outcomes() {
    match HandlerPath::from_inspection("/missing", false, None) {
        Err(HardValidationError::HandlerPathNotFound { path }) => assert_eq!(path, "/missing"),
        _ => panic!("expected a missing path"),
    }
    match HandlerPath::from_inspection("/etc/passwd", true, Some(0o644)) {
        Err(HardValidationError::HandlerNotExecutable { path }) => assert_eq!(path, "/etc/passwd"),
        _ => panic!("expected a non-executable path"),
    }
    let ok = HandlerPath::from_inspection("/bin/echo", true, Some(0o755)).unwrap();
    assert_eq!(ok.as_path(), "/bin/echo");
    let unknown_mode = HandlerPath::from_inspection("/bin/echo", true, None).unwrap();
    assert_eq!(unknown_mode.as_path(), "/bin/echo");
}

#[test]
fn refused_identifiers_say_why() {
    let reason = |id: &str| match FunctionId::new(id) {
        Err(HardValidationError::InvalidFieldValue { field, value, reason }) => {
            assert_eq!(field, "function_id");
            assert_eq!(value, id);
            reason
        }
        _ => panic!("expected a refusal"),
    };
    assert_eq!(reason(""), "Function ID cannot be empty");
    assert_eq!(reason(&"a".repeat(65)), "Function ID too long: 65 chars (max 64)");
    assert_eq!(reason("a b"), "Function ID must contain only alphanumeric characters, hyphens, and underscores");
    match Port::new(0) {
        Err(HardValidationError::InvalidPort { port, reason }) => {
            assert_eq!(port, 0);
            assert_eq!(reason, "Port 0 is reserved and cannot be used");
        }
        _ => panic!("expected a refusal"),
    }
}

#[test]
fn checked_conversions_round_trip() {
    let id = FunctionId::try_from("api-v1".to_string()).unwrap();
    assert_eq!(String::from(id), "api-v1");
    assert!(FunctionId::try_from("no spaces".to_string()).is_err());

    let port = Port::try_from(8080u16).unwrap();
    assert_eq!(u16::from(port), 8080);
    assert!(Port::try_from(0u16).is_err());

    let limit = MemoryLimit::try_from(MIN_MEMORY_LIMIT).unwrap();
    assert_eq!(u64::from(limit), MIN_MEMORY_LIMIT);
    assert!(matches!(MemoryLimit::try_from(MAX_MEMORY_LIMIT + 1), Err(HardValidationError::MemoryLimitOutOfBounds { .. })));

    assert_eq!(u32::from(ProcessId::new(42).unwrap()), 42);
}

#[test]
fn displayed_values() {
    assert_eq!(MemoryLimit::from_mb(128).unwrap().text(), "128MB");
    assert_eq!(MemoryLimit::new(MIN_MEMORY_LIMIT + 1).unwrap().text(), "1MB");
    assert_eq!(Port::new(443).unwrap().text(), "443");
    assert_eq!(ProcessId::new(7).unwrap().text(), "7");
}

#[test]
fn process_id_zero_reason() {
    match ProcessId::new(0) {
        Err(HardValidationError::InvalidFieldValue { field, value, reason }) => {
            assert_eq!(field, "process_id");
            assert_eq!(value, "0");
            assert_eq!(reason, "Process ID 0 is reserved");
        }
        other => panic!("unexpected: {:?}", other),
    }
}

#[test]
fn ascii_identifiers_follow_the_ascii_rule() {
    assert!(FunctionId::new("a-b_C9").is_ok());
    assert!(FunctionId::new("a.b").is_err());
    assert!(FunctionId::new("a b").is_err());
    assert!(FunctionId::new(&"x".repeat(64)).is_ok());
    assert!(FunctionId::new(&"x".repeat(65)).is_err());
}
