use aetherless::config::{
    default_timeout, ConfigLoader, RawConfig, RawFunctionConfig, RawOrchestratorConfig,
};
use aetherless::error::{AetherError, HardValidationError};

fn func(id: &str, mb: u64, port: u16) -> RawFunctionConfig {
    RawFunctionConfig {
        id: id.to_string(),
        memory_limit_mb: mb,
        trigger_port: port,
        handler_path: "/bin/echo".to_string(),
        environment: Vec::new(),
        timeout_ms: default_timeout(),
    }
}

#[test]
fn test_valid_config() {
    let raw = RawConfig {
        orchestrator: RawOrchestratorConfig {
            shm_buffer_size: 4194304,
            warm_pool_size: 10,
            restore_timeout_ms: 15,
            snapshot_dir: "/dev/shm/aetherless".to_string(),
        },
        functions: vec![RawFunctionConfig {
            id: "hello-world".to_string(),
            memory_limit_mb: 128,
            trigger_port: 8080,
            handler_path: "/bin/echo".to_string(),
            environment: vec![("DEBUG".to_string(), "true".to_string())],
            timeout_ms: 30000,
        }],
    };
    let config = ConfigLoader::validate(raw).unwrap();
    assert_eq!(config.functions.len(), 1);
    assert_eq!(config.functions[0].id.as_str(), "hello-world");
    assert_eq!(config.orchestrator.warm_pool_size, 10);
}

#[test]
fn test_missing_functions() {
    let raw = RawConfig {
        orchestrator: RawOrchestratorConfig { warm_pool_size: 10, ..RawOrchestratorConfig::default() },
        functions: Vec::new(),
    };
    let result = ConfigLoader::validate(raw);
    assert!(result.is_err());
}

#[test]
fn test_invalid_function_id() {
    let raw = RawConfig {
        orchestrator: RawOrchestratorConfig::default(),
        functions: vec![func("", 128, 8080)],
    };
    assert!(ConfigLoader::validate(raw).is_err());
}

#[test]
fn test_invalid_port_zero() {
    let raw = RawConfig {
        orchestrator: RawOrchestratorConfig::default(),
        functions: vec![func("test-func", 128, 0)],
    };
    assert!(ConfigLoader::validate(raw).is_err());
}

#[test]
fn test_duplicate_ports() {
    let raw = RawConfig {
        orchestrator: RawOrchestratorConfig::default(),
        functions: vec![func("func1", 128, 8080), func("func2", 128, 8080)],
    };
    assert!(ConfigLoader::validate(raw).is_err());
}

#[test]
fn test_duplicate_ids() {
    let raw = RawConfig {
        orchestrator: RawOrchestratorConfig::default(),
        functions: vec![func("my-func", 128, 8080), func("my-func", 256, 8081)],
    };
    assert!(ConfigLoader::validate(raw).is_err());
}

#[test]
fn test_invalid_memory_limit() {
    let raw = RawConfig {
        orchestrator: RawOrchestratorConfig::default(),
        functions: vec![func("test-func", 0, 8080)],
    };
    assert!(ConfigLoader::validate(raw).is_err());
}

#[test]
fn test_restore_timeout_too_high() {
    let raw = RawConfig {
        orchestrator: RawOrchestratorConfig { restore_timeout_ms: 200, ..RawOrchestratorConfig::default() },
        functions: vec![func("test-func", 128, 8080)],
    };
    assert!(ConfigLoader::validate(raw).is_err());
}

#[test]
fn test_defaults_applied() {
    let raw = RawConfig {
        orchestrator: RawOrchestratorConfig::default(),
        functions: vec![func("test-func", 128, 8080)],
    };
    let config = ConfigLoader::validate(raw).unwrap();
    assert_eq!(config.functions[0].timeout_ms, 30000);
    assert_eq!(config.orchestrator.restore_timeout_ms, 15);
}

#[test]
fn accepted_config_has_distinct_ids_and_ports() {
    let raw = RawConfig {
        orchestrator: RawOrchestratorConfig::default(),
        functions: vec![func("a", 128, 8080), func("b", 128, 8081), func("c", 64, 8082)],
    };
    let config = ConfigLoader::validate(raw).unwrap();
    assert_eq!(config.functions.len(), 3);
    for i in 0..3 {
        for j in 0..3 {
            if i != j {
                assert_ne!(config.functions[i].id.as_str(), config.functions[j].id.as_str());
                assert_ne!(config.functions[i].trigger_port.value(), config.functions[j].trigger_port.value());
            }
        }
    }
    assert_eq!(config.functions[2].memory_limit.megabytes(), 64);
}

#[test]
fn first_fault_is_reported() {
    let raw = RawConfig {
        orchestrator: RawOrchestratorConfig { warm_pool_size: 0, ..RawOrchestratorConfig::default() },
        functions: vec![func("", 128, 8080)],
    };
    match ConfigLoader::validate(raw) {
        Err(AetherError::HardValidation(HardValidationError::InvalidFieldValue { field, .. })) => {
            assert_eq!(field, "warm_pool_size")
        }
        _ => panic!("expected the warm pool size to be reported"),
    }
}

#[test]
fn each_fault_kind_is_reported() {
    let cases: Vec<(RawOrchestratorConfig, Vec<RawFunctionConfig>, &str)> = vec![
        (RawOrchestratorConfig { shm_buffer_size: 1024, ..RawOrchestratorConfig::default() }, vec![func("a", 128, 1)], "shm_buffer_size"),
        (RawOrchestratorConfig::default(), vec![func("a b", 128, 1)], "id"),
        (RawOrchestratorConfig::default(), vec![func("a", 0, 1)], "memory_limit_mb"),
        (RawOrchestratorConfig::default(), vec![RawFunctionConfig { timeout_ms: 0, ..func("a", 128, 1) }], "timeout_ms"),
        (RawOrchestratorConfig::default(), vec![RawFunctionConfig { timeout_ms: 900_001, ..func("a", 128, 1) }], "timeout_ms"),
        (
            RawOrchestratorConfig::default(),
            vec![RawFunctionConfig { environment: vec![(String::new(), "x".to_string())], ..func("a", 128, 1) }],
            "environment",
        ),
    ];
    for (orchestrator, functions, expected) in cases {
        match ConfigLoader::validate(RawConfig { orchestrator, functions }) {
            Err(AetherError::HardValidation(HardValidationError::InvalidFieldValue { field, .. })) => {
                assert_eq!(field, expected)
            }
            _ => panic!("expected an invalid {}", expected),
        }
    }
    match ConfigLoader::validate(RawConfig {
        orchestrator: RawOrchestratorConfig::default(),
        functions: vec![func("a", 128, 9000), func("b", 128, 9000)],
    }) {
        Err(AetherError::HardValidation(HardValidationError::InvalidPort { port, .. })) => assert_eq!(port, 9000),
        _ => panic!("expected a repeated port"),
    }
    match ConfigLoader::validate(RawConfig {
        orchestrator: RawOrchestratorConfig::default(),
        functions: vec![func("same", 128, 1), func("same", 128, 2)],
    }) {
        Err(AetherError::HardValidation(HardValidationError::DuplicateFunctionId { id })) => assert_eq!(id, "same"),
        _ => panic!("expected a repeated identifier"),
    }
    match ConfigLoader::validate(RawConfig { orchestrator: RawOrchestratorConfig::default(), functions: Vec::new() }) {
        Err(AetherError::HardValidation(HardValidationError::SchemaValidation { .. })) => {}
        _ => panic!("expected a schema error"),
    }
}

fn field_error(e: AetherError) -> (String, String, String) {
    match e {
        AetherError::HardValidation(HardValidationError::InvalidFieldValue { field, value, reason }) => {
            (field.to_string(), value, reason)
        }
        other => panic!("expected a field error, got {:?}", other),
    }
}

#[test]
fn refused_settings_are_reported_with_their_values() {
    let raw = RawConfig {
        orchestrator: RawOrchestratorConfig { shm_buffer_size: 1024, ..RawOrchestratorConfig::default() },
        functions: vec![func("a", 128, 8080)],
    };
    let (field, value, reason) = field_error(ConfigLoader::validate(raw).unwrap_err());
    assert_eq!(field, "shm_buffer_size");
    assert_eq!(value, "1024");
    assert_eq!(reason, "Must be between 65536 and 1073741824 bytes");

    let raw = RawConfig {
        orchestrator: RawOrchestratorConfig { restore_timeout_ms: 200, ..RawOrchestratorConfig::default() },
        functions: vec![func("a", 128, 8080)],
    };
    let (field, value, _) = field_error(ConfigLoader::validate(raw).unwrap_err());
    assert_eq!((field.as_str(), value.as_str()), ("restore_timeout_ms", "200"));
}

#[test]
fn refused_functions_are_reported_with_their_values() {
    let (field, value, reason) = field_error(ConfigLoader::validate_function(func("bad id", 128, 8080), 0).unwrap_err());
    assert_eq!((field.as_str(), value.as_str()), ("id", "bad id"));
    assert_eq!(reason, "Function ID must contain only alphanumeric characters, hyphens, and underscores");

    let (field, value, reason) = field_error(ConfigLoader::validate_function(func("a", 0, 8080), 0).unwrap_err());
    assert_eq!((field.as_str(), value.as_str()), ("memory_limit_mb", "0"));
    assert_eq!(reason, "Memory limit out of bounds: 0 bytes (min: 1048576, max: 17179869184)");

    let mut f = func("a", 128, 8080);
    f.environment = vec![("".to_string(), "x".to_string())];
    let (field, value, _) = field_error(ConfigLoader::validate_function(f, 3).unwrap_err());
    assert_eq!((field.as_str(), value.as_str()), ("environment", "empty key in function at index 3"));

    match ConfigLoader::validate_function(func("a", 128, 0), 0).unwrap_err() {
        AetherError::HardValidation(HardValidationError::InvalidPort { port, reason }) => {
            assert_eq!(port, 0);
            assert_eq!(reason, "Port 0 is reserved and cannot be used");
        }
        other => panic!("unexpected {:?}", other),
    }
}

#[test]
fn a_repeated_port_names_the_port() {
    let raw = RawConfig {
        orchestrator: RawOrchestratorConfig::default(),
        functions: vec![func("a", 128, 8080), func("b", 128, 8080)],
    };
    match ConfigLoader::validate(raw).unwrap_err() {
        AetherError::HardValidation(HardValidationError::InvalidPort { port, reason }) => {
            assert_eq!(port, 8080);
            assert_eq!(reason, "Port 8080 is already used by another function");
        }
        other => panic!("unexpected {:?}", other),
    }
}
