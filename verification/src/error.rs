//! Typed errors of the orchestrator: every failure is an explicit variant.

use vstd::prelude::*;

use crate::text::{decimal, decimal_string, hex_u32, hex_u32_string};
use crate::types::{FunctionId, Port};
use vstd::string::StringExecFns;

verus! {

/// Top-level error of the orchestrator.
#[derive(Debug)]
pub enum AetherError {
    HardValidation(HardValidationError),
    ConfigNotFound { path: String },
    ConfigParse { message: String },
    InvalidStateTransition(StateTransitionError),
    FunctionNotFound(FunctionId),
    FunctionAlreadyExists(FunctionId),
    SharedMemory(SharedMemoryError),
    Criu(CriuError),
    Ebpf(EbpfError),
    Io { context: &'static str, message: String },
    Syscall { syscall: &'static str, message: String },
}

/// Validation errors that stop the orchestrator from starting.
#[derive(Debug)]
pub enum HardValidationError {
    MissingRequiredField { field: &'static str, context: String },
    InvalidFieldValue { field: &'static str, value: String, reason: String },
    MemoryLimitOutOfBounds { limit_bytes: u64, min: u64, max: u64 },
    InvalidPort { port: u16, reason: String },
    HandlerPathNotFound { path: String },
    HandlerNotExecutable { path: String },
    DuplicateFunctionId { id: String },
    SchemaValidation { message: String },
}

/// Errors of the function lifecycle state machine.
#[derive(Debug)]
pub enum StateTransitionError {
    InvalidTransition { function_id: FunctionId, from: &'static str, to: &'static str },
    TerminalState { function_id: FunctionId, state: &'static str },
}

/// Shared-memory and ring-buffer errors.
#[derive(Debug)]
pub enum SharedMemoryError {
    CreateFailed { name: String, reason: String },
    MapFailed { reason: String },
    UnmapFailed { reason: String },
    RingBufferFull { size: usize },
    RingBufferEmpty,
    ChecksumMismatch { expected: u32, actual: u32 },
    PayloadTooLarge { size: usize, max: usize },
    InvalidBufferState { reason: String },
}

/// Checkpoint/restore lifecycle errors.
#[derive(Debug)]
pub enum CriuError {
    BinaryNotFound,
    SpawnFailed { reason: String },
    ReadyTimeout,
    DumpFailed { reason: String },
    RestoreFailed { reason: String },
    LatencyViolation { actual_ms: u64, limit_ms: u64 },
    SnapshotNotFound { function_id: FunctionId },
    UnixSocket { reason: String },
}

/// Data-plane (XDP) errors.
#[derive(Debug)]
pub enum EbpfError {
    LoadFailed { reason: String },
    AttachFailed { interface: String, reason: String },
    MapNotFound { name: String },
    MapFull { port: Port },
    MapLookupFailed { port: Port },
    MapUpdateFailed { port: Port, reason: String },
    MapOperationFailed { operation: String, reason: String },
    MalformedPacket,
    VerificationFailed { reason: String },
}


/// The message of a validation error.
pub open spec fn hard_validation_message(e: HardValidationError) -> Seq<char> {
    match e {
        HardValidationError::MissingRequiredField { field, context } => "Missing required field: "@ + field@
            + " in "@ + context@,
        HardValidationError::InvalidFieldValue { field, value, reason } => "Invalid field value: "@ + field@
            + " = "@ + value@ + " - "@ + reason@,
        HardValidationError::MemoryLimitOutOfBounds { limit_bytes, min, max } => "Memory limit out of bounds: "@
            + decimal(limit_bytes as nat) + " bytes (min: "@ + decimal(min as nat) + ", max: "@ + decimal(
            max as nat,
        ) + ")"@,
        HardValidationError::InvalidPort { port, reason } => "Invalid port: "@ + decimal(port as nat) + " - "@
            + reason@,
        HardValidationError::HandlerPathNotFound { path } => "Handler path does not exist: "@ + path@,
        HardValidationError::HandlerNotExecutable { path } => "Handler path is not executable: "@ + path@,
        HardValidationError::DuplicateFunctionId { id } => "Duplicate function ID: "@ + id@,
        HardValidationError::SchemaValidation { message } => "Schema validation failed: "@ + message@,
    }
}

impl HardValidationError {
    /// The error's message.
    pub fn message(&self) -> (r: String)
        ensures
            r@ == hard_validation_message(*self),
    {
        match self {
            HardValidationError::MissingRequiredField { field, context } => {
                let mut m = "Missing required field: ".to_string();
                m.append(field);
                m.append(" in ");
                m.append(context.as_str());
                m
            },
            HardValidationError::InvalidFieldValue { field, value, reason } => {
                let mut m = "Invalid field value: ".to_string();
                m.append(field);
                m.append(" = ");
                m.append(value.as_str());
                m.append(" - ");
                m.append(reason.as_str());
                m
            },
            HardValidationError::MemoryLimitOutOfBounds { limit_bytes, min, max } => {
                let mut m = "Memory limit out of bounds: ".to_string();
                m.append(decimal_string(*limit_bytes).as_str());
                m.append(" bytes (min: ");
                m.append(decimal_string(*min).as_str());
                m.append(", max: ");
                m.append(decimal_string(*max).as_str());
                m.append(")");
                m
            },
            HardValidationError::InvalidPort { port, reason } => {
                let mut m = "Invalid port: ".to_string();
                m.append(decimal_string(*port as u64).as_str());
                m.append(" - ");
                m.append(reason.as_str());
                m
            },
            HardValidationError::HandlerPathNotFound { path } => {
                let mut m = "Handler path does not exist: ".to_string();
                m.append(path.as_str());
                m
            },
            HardValidationError::HandlerNotExecutable { path } => {
                let mut m = "Handler path is not executable: ".to_string();
                m.append(path.as_str());
                m
            },
            HardValidationError::DuplicateFunctionId { id } => {
                let mut m = "Duplicate function ID: ".to_string();
                m.append(id.as_str());
                m
            },
            HardValidationError::SchemaValidation { message } => {
                let mut m = "Schema validation failed: ".to_string();
                m.append(message.as_str());
                m
            },
        }
    }
}


/// The message of a state machine error.
pub open spec fn transition_message(e: StateTransitionError) -> Seq<char> {
    match e {
        StateTransitionError::InvalidTransition { function_id, from, to } => "Cannot transition from "@ + from@
            + " to "@ + to@ + " for function "@ + function_id@,
        StateTransitionError::TerminalState { function_id, state } => "Function "@ + function_id@
            + " is in terminal state: "@ + state@,
    }
}

/// The message of a shared-memory error.
pub open spec fn shared_memory_message(e: SharedMemoryError) -> Seq<char> {
    match e {
        SharedMemoryError::CreateFailed { name, reason } => "Failed to create shared memory region: "@ + name@
            + " - "@ + reason@,
        SharedMemoryError::MapFailed { reason } => "Failed to map shared memory: "@ + reason@,
        SharedMemoryError::UnmapFailed { reason } => "Failed to unmap shared memory: "@ + reason@,
        SharedMemoryError::RingBufferFull { size } => "Ring buffer full - cannot write "@ + decimal(size as nat)
            + " bytes"@,
        SharedMemoryError::RingBufferEmpty => "Ring buffer empty - no data available"@,
        SharedMemoryError::ChecksumMismatch { expected, actual } => "Payload checksum mismatch: expected "@
            + hex_u32(expected) + ", got "@ + hex_u32(actual),
        SharedMemoryError::PayloadTooLarge { size, max } => "Payload size exceeds maximum: "@ + decimal(
            size as nat,
        ) + " > "@ + decimal(max as nat),
        SharedMemoryError::InvalidBufferState { reason } => "Invalid buffer state: "@ + reason@,
    }
}

/// The message of a checkpoint/restore error.
pub open spec fn criu_message(e: CriuError) -> Seq<char> {
    match e {
        CriuError::BinaryNotFound => "CRIU binary not found at expected path"@,
        CriuError::SpawnFailed { reason } => "Failed to spawn function process: "@ + reason@,
        CriuError::ReadyTimeout => "Process did not send READY signal within timeout"@,
        CriuError::DumpFailed { reason } => "CRIU dump failed: "@ + reason@,
        CriuError::RestoreFailed { reason } => "CRIU restore failed: "@ + reason@,
        CriuError::LatencyViolation { actual_ms, limit_ms } => "Latency violation: restore took "@ + decimal(
            actual_ms as nat,
        ) + "ms, limit is "@ + decimal(limit_ms as nat) + "ms"@,
        CriuError::SnapshotNotFound { function_id } => "Snapshot not found for function: "@ + function_id@,
        CriuError::UnixSocket { reason } => "Unix socket error: "@ + reason@,
    }
}

/// The message of a data-plane error.
pub open spec fn ebpf_message(e: EbpfError) -> Seq<char> {
    match e {
        EbpfError::LoadFailed { reason } => "Failed to load eBPF program: "@ + reason@,
        EbpfError::AttachFailed { interface, reason } => "Failed to attach XDP program to interface "@
            + interface@ + ": "@ + reason@,
        EbpfError::MapNotFound { name } => "BPF map '"@ + name@ + "' not found"@,
        EbpfError::MapFull { port } => "BPF map is full - cannot add port "@ + decimal(port@ as nat),
        EbpfError::MapLookupFailed { port } => "BPF map lookup failed for port "@ + decimal(port@ as nat),
        EbpfError::MapUpdateFailed { port, reason } => "BPF map update failed for port "@ + decimal(
            port@ as nat,
        ) + ": "@ + reason@,
        EbpfError::MapOperationFailed { operation, reason } => "BPF map operation '"@ + operation@
            + "' failed: "@ + reason@,
        EbpfError::MalformedPacket => "Packet drop: malformed packet"@,
        EbpfError::VerificationFailed { reason } => "eBPF program verification failed: "@ + reason@,
    }
}

/// The message of an orchestrator error.
pub open spec fn aether_message(e: AetherError) -> Seq<char> {
    match e {
        AetherError::HardValidation(h) => "Hard validation error: "@ + hard_validation_message(h),
        AetherError::ConfigNotFound { path } => "Configuration file not found: "@ + path@,
        AetherError::ConfigParse { message } => "Configuration parse error: "@ + message@,
        AetherError::InvalidStateTransition(t) => "Invalid state transition: "@ + transition_message(t),
        AetherError::FunctionNotFound(id) => "Function not found: "@ + id@,
        AetherError::FunctionAlreadyExists(id) => "Function already exists: "@ + id@,
        AetherError::SharedMemory(m) => "Shared memory error: "@ + shared_memory_message(m),
        AetherError::Criu(c) => "CRIU error: "@ + criu_message(c),
        AetherError::Ebpf(b) => "eBPF error: "@ + ebpf_message(b),
        AetherError::Io { context, message } => "IO error: "@ + context@ + " - "@ + message@,
        AetherError::Syscall { syscall, message } => "System call failed: "@ + syscall@ + " - "@ + message@,
    }
}

/// `prefix` followed by `rest`.
fn joined(prefix: &str, rest: &str) -> (r: String)
    ensures
        r@ == prefix@ + rest@,
{
    let mut m = prefix.to_string();
    m.append(rest);
    m
}

impl StateTransitionError {
    /// The error's message.
    pub fn message(&self) -> (r: String)
        ensures
            r@ == transition_message(*self),
    {
        match self {
            StateTransitionError::InvalidTransition { function_id, from, to } => {
                let mut m = joined("Cannot transition from ", from);
                m.append(" to ");
                m.append(to);
                m.append(" for function ");
                m.append(function_id.as_str());
                m
            },
            StateTransitionError::TerminalState { function_id, state } => {
                let mut m = joined("Function ", function_id.as_str());
                m.append(" is in terminal state: ");
                m.append(state);
                m
            },
        }
    }
}

impl SharedMemoryError {
    /// The error's message.
    pub fn message(&self) -> (r: String)
        ensures
            r@ == shared_memory_message(*self),
    {
        match self {
            SharedMemoryError::CreateFailed { name, reason } => {
                let mut m = joined("Failed to create shared memory region: ", name.as_str());
                m.append(" - ");
                m.append(reason.as_str());
                m
            },
            SharedMemoryError::MapFailed { reason } => joined("Failed to map shared memory: ", reason.as_str()),
            SharedMemoryError::UnmapFailed { reason } => joined("Failed to unmap shared memory: ", reason.as_str()),
            SharedMemoryError::RingBufferFull { size } => {
                let mut m = joined("Ring buffer full - cannot write ", decimal_string(*size as u64).as_str());
                m.append(" bytes");
                m
            },
            SharedMemoryError::RingBufferEmpty => "Ring buffer empty - no data available".to_string(),
            SharedMemoryError::ChecksumMismatch { expected, actual } => {
                let mut m = joined("Payload checksum mismatch: expected ", hex_u32_string(*expected).as_str());
                m.append(", got ");
                m.append(hex_u32_string(*actual).as_str());
                m
            },
            SharedMemoryError::PayloadTooLarge { size, max } => {
                let mut m = joined("Payload size exceeds maximum: ", decimal_string(*size as u64).as_str());
                m.append(" > ");
                m.append(decimal_string(*max as u64).as_str());
                m
            },
            SharedMemoryError::InvalidBufferState { reason } => joined("Invalid buffer state: ", reason.as_str()),
        }
    }
}

impl CriuError {
    /// The error's message.
    pub fn message(&self) -> (r: String)
        ensures
            r@ == criu_message(*self),
    {
        match self {
            CriuError::BinaryNotFound => "CRIU binary not found at expected path".to_string(),
            CriuError::SpawnFailed { reason } => joined("Failed to spawn function process: ", reason.as_str()),
            CriuError::ReadyTimeout => "Process did not send READY signal within timeout".to_string(),
            CriuError::DumpFailed { reason } => joined("CRIU dump failed: ", reason.as_str()),
            CriuError::RestoreFailed { reason } => joined("CRIU restore failed: ", reason.as_str()),
            CriuError::LatencyViolation { actual_ms, limit_ms } => {
                let mut m = joined("Latency violation: restore took ", decimal_string(*actual_ms).as_str());
                m.append("ms, limit is ");
                m.append(decimal_string(*limit_ms).as_str());
                m.append("ms");
                m
            },
            CriuError::SnapshotNotFound { function_id } => joined(
                "Snapshot not found for function: ",
                function_id.as_str(),
            ),
            CriuError::UnixSocket { reason } => joined("Unix socket error: ", reason.as_str()),
        }
    }
}

impl EbpfError {
    /// The error's message.
    pub fn message(&self) -> (r: String)
        ensures
            r@ == ebpf_message(*self),
    {
        match self {
            EbpfError::LoadFailed { reason } => joined("Failed to load eBPF program: ", reason.as_str()),
            EbpfError::AttachFailed { interface, reason } => {
                let mut m = joined("Failed to attach XDP program to interface ", interface.as_str());
                m.append(": ");
                m.append(reason.as_str());
                m
            },
            EbpfError::MapNotFound { name } => {
                let mut m = joined("BPF map '", name.as_str());
                m.append("' not found");
                m
            },
            EbpfError::MapFull { port } => joined(
                "BPF map is full - cannot add port ",
                decimal_string(port.value() as u64).as_str(),
            ),
            EbpfError::MapLookupFailed { port } => joined(
                "BPF map lookup failed for port ",
                decimal_string(port.value() as u64).as_str(),
            ),
            EbpfError::MapUpdateFailed { port, reason } => {
                let mut m = joined("BPF map update failed for port ", decimal_string(port.value() as u64).as_str());
                m.append(": ");
                m.append(reason.as_str());
                m
            },
            EbpfError::MapOperationFailed { operation, reason } => {
                let mut m = joined("BPF map operation '", operation.as_str());
                m.append("' failed: ");
                m.append(reason.as_str());
                m
            },
            EbpfError::MalformedPacket => "Packet drop: malformed packet".to_string(),
            EbpfError::VerificationFailed { reason } => joined("eBPF program verification failed: ", reason.as_str()),
        }
    }
}

impl AetherError {
    /// The error's message.
    pub fn message(&self) -> (r: String)
        ensures
            r@ == aether_message(*self),
    {
        match self {
            AetherError::HardValidation(h) => joined("Hard validation error: ", h.message().as_str()),
            AetherError::ConfigNotFound { path } => joined("Configuration file not found: ", path.as_str()),
            AetherError::ConfigParse { message } => joined("Configuration parse error: ", message.as_str()),
            AetherError::InvalidStateTransition(t) => joined("Invalid state transition: ", t.message().as_str()),
            AetherError::FunctionNotFound(id) => joined("Function not found: ", id.as_str()),
            AetherError::FunctionAlreadyExists(id) => joined("Function already exists: ", id.as_str()),
            AetherError::SharedMemory(m) => joined("Shared memory error: ", m.message().as_str()),
            AetherError::Criu(c) => joined("CRIU error: ", c.message().as_str()),
            AetherError::Ebpf(b) => joined("eBPF error: ", b.message().as_str()),
            AetherError::Io { context, message } => {
                let mut m = joined("IO error: ", context);
                m.append(" - ");
                m.append(message.as_str());
                m
            },
            AetherError::Syscall { syscall, message } => {
                let mut m = joined("System call failed: ", syscall);
                m.append(" - ");
                m.append(message.as_str());
                m
            },
        }
    }
}

impl From<HardValidationError> for AetherError {
    fn from(err: HardValidationError) -> (res: Self) {
        AetherError::HardValidation(err)
    }
}

impl vstd::std_specs::convert::FromSpecImpl<HardValidationError> for AetherError {
    open spec fn obeys_from_spec() -> bool {
        true
    }

    open spec fn from_spec(v: HardValidationError) -> Self {
        AetherError::HardValidation(v)
    }
}

impl From<StateTransitionError> for AetherError {
    fn from(err: StateTransitionError) -> (res: Self) {
        AetherError::InvalidStateTransition(err)
    }
}

impl vstd::std_specs::convert::FromSpecImpl<StateTransitionError> for AetherError {
    open spec fn obeys_from_spec() -> bool {
        true
    }

    open spec fn from_spec(v: StateTransitionError) -> Self {
        AetherError::InvalidStateTransition(v)
    }
}

impl From<SharedMemoryError> for AetherError {
    fn from(err: SharedMemoryError) -> (res: Self) {
        AetherError::SharedMemory(err)
    }
}

impl vstd::std_specs::convert::FromSpecImpl<SharedMemoryError> for AetherError {
    open spec fn obeys_from_spec() -> bool {
        true
    }

    open spec fn from_spec(v: SharedMemoryError) -> Self {
        AetherError::SharedMemory(v)
    }
}

impl From<CriuError> for AetherError {
    fn from(err: CriuError) -> (res: Self) {
        AetherError::Criu(err)
    }
}

impl vstd::std_specs::convert::FromSpecImpl<CriuError> for AetherError {
    open spec fn obeys_from_spec() -> bool {
        true
    }

    open spec fn from_spec(v: CriuError) -> Self {
        AetherError::Criu(v)
    }
}

impl From<EbpfError> for AetherError {
    fn from(err: EbpfError) -> (res: Self) {
        AetherError::Ebpf(err)
    }
}

impl vstd::std_specs::convert::FromSpecImpl<EbpfError> for AetherError {
    open spec fn obeys_from_spec() -> bool {
        true
    }

    open spec fn from_spec(v: EbpfError) -> Self {
        AetherError::Ebpf(v)
    }
}

} // verus!
