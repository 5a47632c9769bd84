use aetherless::error::{AetherError, CriuError, HardValidationError, SharedMemoryError};

#[test]
fn test_error_chain() {
    let validation_err = HardValidationError::InvalidPort {
        port: 0,
        reason: "Port must be non-zero".to_string(),
    };
    let aether_err: AetherError = validation_err.into();
    assert!(matches!(aether_err, AetherError::HardValidation(_)));
}

#[test]
fn other_errors_convert_to_their_variants() {
    let e: AetherError = SharedMemoryError::RingBufferEmpty.into();
    assert!(matches!(e, AetherError::SharedMemory(SharedMemoryError::RingBufferEmpty)));
    let e: AetherError = CriuError::BinaryNotFound.into();
    assert!(matches!(e, AetherError::Criu(CriuError::BinaryNotFound)));
}

#[test]
fn test_hard_validation_error_display() {
    let err = HardValidationError::MissingRequiredField {
        field: "memory_limit",
        context: "function 'my-func'".to_string(),
    };
    assert!(err.message().contains("memory_limit"));
    assert!(err.message().contains("my-func"));
}

#[test]
fn messages_follow_the_documented_formats() {
    assert_eq!(
        HardValidationError::MemoryLimitOutOfBounds { limit_bytes: 5, min: 1048576, max: 17179869184 }.message(),
        "Memory limit out of bounds: 5 bytes (min: 1048576, max: 17179869184)"
    );
    assert_eq!(
        SharedMemoryError::ChecksumMismatch { expected: 0xCBF43926, actual: 0x1F }.message(),
        "Payload checksum mismatch: expected 0xcbf43926, got 0x0000001f"
    );
    assert_eq!(
        AetherError::Criu(CriuError::LatencyViolation { actual_ms: 20, limit_ms: 15 }).message(),
        "CRIU error: Latency violation: restore took 20ms, limit is 15ms"
    );
    assert_eq!(
        AetherError::HardValidation(HardValidationError::InvalidPort { port: 0, reason: "zero".to_string() }).message(),
        "Hard validation error: Invalid port: 0 - zero"
    );
    assert_eq!(SharedMemoryError::RingBufferEmpty.message(), "Ring buffer empty - no data available");
    assert_eq!(
        format!("{:#010x}", 0xCBF43926u32),
        "0xcbf43926"
    );
}
