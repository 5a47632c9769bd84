//! Configuration validation: raw settings, as read from a configuration
//! file, are checked field by field and turned into validated types; any
//! invalid field stops the orchestrator from starting.

use vstd::prelude::*;

use vstd::string::StringExecFns;

use crate::error::{hard_validation_message, AetherError, HardValidationError};
use crate::text::{decimal, decimal_string};
use crate::types::{
    function_id_refusal, valid_function_id, valid_memory_limit, FunctionId, HandlerPath, MemoryLimit,
    Port, BYTES_PER_MB, MAX_MEMORY_LIMIT, MIN_MEMORY_LIMIT,
};

verus! {

broadcast use vstd::string::group_string_axioms;

/// Default handler timeout: 30 s.
pub const DEFAULT_TIMEOUT_MS: u64 = 30000;

/// Default shared-memory buffer: 4 MB.
pub const DEFAULT_SHM_SIZE: usize = 4194304;

/// Default warm pool size.
pub const DEFAULT_WARM_POOL_SIZE: usize = 10;

/// Default limit on a restore: 15 ms.
pub const DEFAULT_RESTORE_TIMEOUT_MS: u64 = 15;

/// Smallest shared-memory buffer: 64 KB.
pub const MIN_SHM_SIZE: usize = 65536;

/// Largest shared-memory buffer: 1 GB.
pub const MAX_SHM_SIZE: usize = 1073741824;

/// Largest warm pool.
pub const MAX_WARM_POOL_SIZE: usize = 1000;

/// Largest allowed restore limit: 100 ms.
pub const MAX_RESTORE_TIMEOUT_MS: u64 = 100;

/// Largest handler timeout: 15 minutes.
pub const MAX_TIMEOUT_MS: u64 = 900000;

/// The default handler timeout.
pub fn default_timeout() -> (r: u64)
    ensures
        r == DEFAULT_TIMEOUT_MS,
{
    DEFAULT_TIMEOUT_MS
}

/// The default shared-memory buffer size.
pub fn default_shm_size() -> (r: usize)
    ensures
        r == DEFAULT_SHM_SIZE,
{
    DEFAULT_SHM_SIZE
}

/// The default warm pool size.
pub fn default_warm_pool_size() -> (r: usize)
    ensures
        r == DEFAULT_WARM_POOL_SIZE,
{
    DEFAULT_WARM_POOL_SIZE
}

/// The default restore limit.
pub fn default_restore_timeout_ms() -> (r: u64)
    ensures
        r == DEFAULT_RESTORE_TIMEOUT_MS,
{
    DEFAULT_RESTORE_TIMEOUT_MS
}

/// The default snapshot directory.
pub fn default_snapshot_dir() -> (r: String)
    ensures
        r@ == "/dev/shm/aetherless"@,
{
    "/dev/shm/aetherless".to_string()
}

/// Environment variables as name/value pairs, as text.
pub open spec fn env_view(env: Seq<(String, String)>) -> Seq<(Seq<char>, Seq<char>)> {
    env.map_values(|p: (String, String)| (p.0@, p.1@))
}

/// No two environment variables share a name, as in a map from names to
/// values.
pub open spec fn env_names_distinct(env: Seq<(Seq<char>, Seq<char>)>) -> bool {
    forall|i: int, j: int| 0 <= i < j < env.len() ==> (#[trigger] env[i]).0 != (#[trigger] env[j]).0
}

/// A function's settings as read, before validation. The environment is a
/// map from names to values, held as a list of distinct names.
#[derive(Debug)]
pub struct RawFunctionConfig {
    pub id: String,
    pub memory_limit_mb: u64,
    pub trigger_port: u16,
    pub handler_path: String,
    pub environment: Vec<(String, String)>,
    pub timeout_ms: u64,
}

/// The orchestrator's settings as read, before validation.
#[derive(Debug)]
pub struct RawOrchestratorConfig {
    pub shm_buffer_size: usize,
    pub warm_pool_size: usize,
    pub restore_timeout_ms: u64,
    pub snapshot_dir: String,
}

impl Default for RawOrchestratorConfig {
    fn default() -> (r: Self)
        ensures
            r.shm_buffer_size == DEFAULT_SHM_SIZE,
            r.warm_pool_size == DEFAULT_WARM_POOL_SIZE,
            r.restore_timeout_ms == DEFAULT_RESTORE_TIMEOUT_MS,
            r.snapshot_dir@ == "/dev/shm/aetherless"@,
    {
        RawOrchestratorConfig {
            shm_buffer_size: default_shm_size(),
            warm_pool_size: default_warm_pool_size(),
            restore_timeout_ms: default_restore_timeout_ms(),
            snapshot_dir: default_snapshot_dir(),
        }
    }
}

/// A whole configuration as read, before validation.
#[derive(Debug)]
pub struct RawConfig {
    pub orchestrator: RawOrchestratorConfig,
    pub functions: Vec<RawFunctionConfig>,
}

/// A validated function configuration.
#[derive(Debug)]
pub struct FunctionConfig {
    pub id: FunctionId,
    pub memory_limit: MemoryLimit,
    pub trigger_port: Port,
    pub handler_path: HandlerPath,
    pub environment: Vec<(String, String)>,
    pub timeout_ms: u64,
}

/// A function configuration as plain values.
pub struct FunctionConfigView {
    pub id: Seq<char>,
    pub memory_limit: u64,
    pub trigger_port: u16,
    pub handler_path: Seq<char>,
    pub environment: Seq<(Seq<char>, Seq<char>)>,
    pub timeout_ms: u64,
}

impl View for FunctionConfig {
    type V = FunctionConfigView;

    open spec fn view(&self) -> FunctionConfigView {
        FunctionConfigView {
            id: self.id@,
            memory_limit: self.memory_limit@,
            trigger_port: self.trigger_port@,
            handler_path: self.handler_path@,
            environment: env_view(self.environment@),
            timeout_ms: self.timeout_ms,
        }
    }
}

impl Clone for FunctionConfig {
    fn clone(&self) -> (r: Self)
        ensures
            r@ == self@,
    {
        let mut environment: Vec<(String, String)> = Vec::new();
        let n = self.environment.len();
        let mut i: usize = 0;
        while i < n
            invariant
                i <= n,
                n == self.environment@.len(),
                environment@.len() == i,
                forall|j: int| 0 <= j < i ==> #[trigger] environment@[j].0@ == self.environment@[j].0@
                    && environment@[j].1@ == self.environment@[j].1@,
            decreases n - i,
        {
            let pair = &self.environment[i];
            environment.push((pair.0.clone(), pair.1.clone()));
            i = i + 1;
        }
        assert(env_view(environment@) =~= env_view(self.environment@));
        FunctionConfig {
            id: self.id.clone(),
            memory_limit: self.memory_limit,
            trigger_port: self.trigger_port,
            handler_path: self.handler_path.clone(),
            environment,
            timeout_ms: self.timeout_ms,
        }
    }
}

/// The validated orchestrator configuration.
#[derive(Debug, Clone)]
pub struct OrchestratorConfig {
    pub shm_buffer_size: usize,
    pub warm_pool_size: usize,
    pub restore_timeout_ms: u64,
    pub snapshot_dir: String,
}

/// A complete validated configuration.
#[derive(Debug)]
pub struct Config {
    pub orchestrator: OrchestratorConfig,
    pub functions: Vec<FunctionConfig>,
}

/// The first problem found in a configuration, in the order of the checks.
pub enum ConfigFault {
    ShmBufferSize,
    WarmPoolSize,
    RestoreTimeout,
    FunctionIdInvalid,
    MemoryLimitInvalid,
    PortZero,
    TimeoutInvalid,
    EmptyEnvironmentKey,
    DuplicateId,
    DuplicatePort(u16),
    NoFunctions,
}

/// The first failed check of the orchestrator settings.
pub open spec fn orchestrator_fault(raw: RawOrchestratorConfig) -> Option<ConfigFault> {
    if raw.shm_buffer_size < MIN_SHM_SIZE || raw.shm_buffer_size > MAX_SHM_SIZE {
        Some(ConfigFault::ShmBufferSize)
    } else if raw.warm_pool_size == 0 || raw.warm_pool_size > MAX_WARM_POOL_SIZE {
        Some(ConfigFault::WarmPoolSize)
    } else if raw.restore_timeout_ms > MAX_RESTORE_TIMEOUT_MS {
        Some(ConfigFault::RestoreTimeout)
    } else {
        None
    }
}

/// Some environment variable has an empty name.
pub open spec fn has_empty_env_key(env: Seq<(String, String)>) -> bool {
    exists|k: int| 0 <= k < env.len() && (#[trigger] env[k]).0@.len() == 0
}

/// The first failed check of one function's settings.
pub open spec fn function_fault(raw: RawFunctionConfig) -> Option<ConfigFault> {
    if !valid_function_id(raw.id@) {
        Some(ConfigFault::FunctionIdInvalid)
    } else if !valid_memory_limit((raw.memory_limit_mb * BYTES_PER_MB) as u64) {
        Some(ConfigFault::MemoryLimitInvalid)
    } else if raw.trigger_port == 0 {
        Some(ConfigFault::PortZero)
    } else if raw.timeout_ms == 0 || raw.timeout_ms > MAX_TIMEOUT_MS {
        Some(ConfigFault::TimeoutInvalid)
    } else if has_empty_env_key(raw.environment@) {
        Some(ConfigFault::EmptyEnvironmentKey)
    } else {
        None
    }
}

/// The validated form of a function's settings that pass the checks.
pub open spec fn function_config_of(raw: RawFunctionConfig) -> FunctionConfigView {
    FunctionConfigView {
        id: raw.id@,
        memory_limit: (raw.memory_limit_mb * BYTES_PER_MB) as u64,
        trigger_port: raw.trigger_port,
        handler_path: raw.handler_path@,
        environment: env_view(raw.environment@),
        timeout_ms: raw.timeout_ms,
    }
}

/// The error that reports the first failed check of the orchestrator
/// settings, with the refused value and the bounds it broke.
pub open spec fn orchestrator_error(e: AetherError, raw: RawOrchestratorConfig) -> bool {
    e matches AetherError::HardValidation(HardValidationError::InvalidFieldValue { field, value, reason }) && (
    if raw.shm_buffer_size < MIN_SHM_SIZE || raw.shm_buffer_size > MAX_SHM_SIZE {
        field@ == "shm_buffer_size"@ && value@ == decimal(raw.shm_buffer_size as nat) && reason@
            == "Must be between 65536 and 1073741824 bytes"@
    } else if raw.warm_pool_size == 0 || raw.warm_pool_size > MAX_WARM_POOL_SIZE {
        field@ == "warm_pool_size"@ && value@ == decimal(raw.warm_pool_size as nat) && reason@
            == "Must be between 1 and 1000"@
    } else {
        field@ == "restore_timeout_ms"@ && value@ == decimal(raw.restore_timeout_ms as nat) && reason@
            == "Restore timeout must not exceed 100ms for latency requirements"@
    })
}

/// Where an empty environment name was found.
pub open spec fn empty_env_key_context(index: int) -> Seq<char> {
    "empty key in function at index "@ + decimal(index as nat)
}

/// The reason given for a port that an earlier function already uses.
pub open spec fn port_in_use(port: u16) -> Seq<char> {
    "Port "@ + decimal(port as nat) + " is already used by another function"@
}

/// The error that reports the first failed check of the settings of the
/// function at position `index`.
pub open spec fn function_error(e: AetherError, raw: RawFunctionConfig, index: int) -> bool {
    if !valid_function_id(raw.id@) {
        e matches AetherError::HardValidation(HardValidationError::InvalidFieldValue { field, value, reason })
            && field@ == "id"@ && value@ == raw.id@ && reason@ == function_id_refusal(raw.id@)
    } else if !valid_memory_limit((raw.memory_limit_mb * BYTES_PER_MB) as u64) {
        e matches AetherError::HardValidation(HardValidationError::InvalidFieldValue { field, value, reason })
            && field@ == "memory_limit_mb"@ && value@ == decimal(raw.memory_limit_mb as nat) && reason@
            == hard_validation_message(
            HardValidationError::MemoryLimitOutOfBounds {
                limit_bytes: (raw.memory_limit_mb * BYTES_PER_MB) as u64,
                min: MIN_MEMORY_LIMIT,
                max: MAX_MEMORY_LIMIT,
            },
        )
    } else if raw.trigger_port == 0 {
        e matches AetherError::HardValidation(HardValidationError::InvalidPort { port, reason }) && port == 0
            && reason@ == "Port 0 is reserved and cannot be used"@
    } else if raw.timeout_ms == 0 {
        e matches AetherError::HardValidation(HardValidationError::InvalidFieldValue { field, value, reason })
            && field@ == "timeout_ms"@ && value@ == "0"@ && reason@ == "Timeout must be greater than 0"@
    } else if raw.timeout_ms > MAX_TIMEOUT_MS {
        e matches AetherError::HardValidation(HardValidationError::InvalidFieldValue { field, value, reason })
            && field@ == "timeout_ms"@ && value@ == decimal(raw.timeout_ms as nat) && reason@
            == "Timeout must not exceed 15 minutes (900000ms)"@
    } else {
        e matches AetherError::HardValidation(HardValidationError::InvalidFieldValue { field, value, reason })
            && field@ == "environment"@ && value@ == empty_env_key_context(index) && reason@
            == "Environment variable names cannot be empty"@
    }
}

/// Function `n` repeats the identifier of an earlier function.
pub open spec fn repeats_id(fs: Seq<RawFunctionConfig>, n: int) -> bool {
    exists|j: int| 0 <= j < n && (#[trigger] fs[j]).id@ == fs[n].id@
}

/// Function `n` repeats the port of an earlier function.
pub open spec fn repeats_port(fs: Seq<RawFunctionConfig>, n: int) -> bool {
    exists|j: int| 0 <= j < n && (#[trigger] fs[j]).trigger_port == fs[n].trigger_port
}

/// The fault found at function `n`, given that the earlier ones passed.
pub open spec fn fault_at(fs: Seq<RawFunctionConfig>, n: int) -> Option<ConfigFault> {
    if function_fault(fs[n]) is Some {
        function_fault(fs[n])
    } else if repeats_id(fs, n) {
        Some(ConfigFault::DuplicateId)
    } else if repeats_port(fs, n) {
        Some(ConfigFault::DuplicatePort(fs[n].trigger_port))
    } else {
        None
    }
}

/// The first fault among functions `n..`.
pub open spec fn functions_fault_from(fs: Seq<RawFunctionConfig>, n: int) -> Option<ConfigFault>
    decreases fs.len() - n,
{
    if n < 0 || n >= fs.len() {
        None
    } else if fault_at(fs, n) is Some {
        fault_at(fs, n)
    } else {
        functions_fault_from(fs, n + 1)
    }
}

/// The first fault of a whole configuration, in the order the checks run:
/// orchestrator settings, then each function in turn, then the demand for at
/// least one function.
pub open spec fn config_fault(raw: RawConfig) -> Option<ConfigFault> {
    if orchestrator_fault(raw.orchestrator) is Some {
        orchestrator_fault(raw.orchestrator)
    } else if functions_fault_from(raw.functions@, 0) is Some {
        functions_fault_from(raw.functions@, 0)
    } else if raw.functions@.len() == 0 {
        Some(ConfigFault::NoFunctions)
    } else {
        None
    }
}

/// The position of the first refused function among functions `n..`, or
/// the number of functions when none is refused.
pub open spec fn first_refused_from(fs: Seq<RawFunctionConfig>, n: int) -> int
    decreases fs.len() - n,
{
    if n < 0 || n >= fs.len() {
        fs.len() as int
    } else if fault_at(fs, n) is Some {
        n
    } else {
        first_refused_from(fs, n + 1)
    }
}

/// The error that reports why function `n` is refused, given that the
/// earlier ones passed: its own settings, then a repeated identifier, then
/// a repeated port.
pub open spec fn function_at_error(e: AetherError, fs: Seq<RawFunctionConfig>, n: int) -> bool {
    if function_fault(fs[n]) is Some {
        function_error(e, fs[n], n)
    } else if repeats_id(fs, n) {
        e matches AetherError::HardValidation(HardValidationError::DuplicateFunctionId { id }) && id@ == fs[n].id@
    } else {
        e matches AetherError::HardValidation(HardValidationError::InvalidPort { port, reason }) && port
            == fs[n].trigger_port && reason@ == port_in_use(fs[n].trigger_port)
    }
}

/// The error that reports the first fault of a whole configuration.
pub open spec fn config_error(e: AetherError, raw: RawConfig) -> bool {
    if orchestrator_fault(raw.orchestrator) is Some {
        orchestrator_error(e, raw.orchestrator)
    } else if functions_fault_from(raw.functions@, 0) is Some {
        function_at_error(e, raw.functions@, first_refused_from(raw.functions@, 0))
    } else {
        e matches AetherError::HardValidation(HardValidationError::SchemaValidation { message }) && message@
            == "At least one function must be defined"@
    }
}

/// The megabyte counts that validation converts to bytes fit in 64 bits:
/// those of the functions it reaches (up to the first refused one, once the
/// orchestrator settings pass) whose identifier is valid, since the
/// identifier is checked before the memory limit.
pub open spec fn reached_limits_convertible(raw: RawConfig) -> bool {
    let fs = raw.functions@;
    orchestrator_fault(raw.orchestrator) is None ==> forall|i: int|
        0 <= i <= first_refused_from(fs, 0) && i < fs.len() && valid_function_id((#[trigger] fs[i]).id@)
            ==> fs[i].memory_limit_mb * BYTES_PER_MB <= u64::MAX
}

/// The first refused function is not before `n`.
proof fn lemma_first_refused_not_before(fs: Seq<RawFunctionConfig>, n: int)
    requires
        0 <= n <= fs.len(),
    ensures
        first_refused_from(fs, n) >= n,
    decreases fs.len() - n,
{
    if n < fs.len() && fault_at(fs, n) is None {
        lemma_first_refused_not_before(fs, n + 1);
    }
}

/// Checks configurations and turns them into validated types.
pub struct ConfigLoader;

impl ConfigLoader {
    /// Check the orchestrator settings: buffer size in [64 KB, 1 GB], warm
    /// pool size in [1, 1000], restore limit at most 100 ms.
    pub fn validate_orchestrator(raw: RawOrchestratorConfig) -> (res: Result<
        OrchestratorConfig,
        AetherError,
    >)
        ensures
            res is Ok <==> orchestrator_fault(raw) is None,
            match res {
                Ok(c) => c.shm_buffer_size == raw.shm_buffer_size && c.warm_pool_size
                    == raw.warm_pool_size && c.restore_timeout_ms == raw.restore_timeout_ms
                    && c.snapshot_dir@ == raw.snapshot_dir@ && 65536 <= c.shm_buffer_size <= 1073741824
                    && 1 <= c.warm_pool_size <= 1000 && c.restore_timeout_ms <= 100,
                Err(e) => orchestrator_error(e, raw),
            },
    {
        proof {
            reveal_strlit("shm_buffer_size");
            reveal_strlit("warm_pool_size");
            reveal_strlit("restore_timeout_ms");
        }
        if raw.shm_buffer_size < MIN_SHM_SIZE || raw.shm_buffer_size > MAX_SHM_SIZE {
            return Err(
                AetherError::HardValidation(
                    HardValidationError::InvalidFieldValue {
                        field: "shm_buffer_size",
                        value: decimal_string(raw.shm_buffer_size as u64),
                        reason: "Must be between 65536 and 1073741824 bytes".to_string(),
                    },
                ),
            );
        }
        if raw.warm_pool_size == 0 || raw.warm_pool_size > MAX_WARM_POOL_SIZE {
            return Err(
                AetherError::HardValidation(
                    HardValidationError::InvalidFieldValue {
                        field: "warm_pool_size",
                        value: decimal_string(raw.warm_pool_size as u64),
                        reason: "Must be between 1 and 1000".to_string(),
                    },
                ),
            );
        }
        if raw.restore_timeout_ms > MAX_RESTORE_TIMEOUT_MS {
            return Err(
                AetherError::HardValidation(
                    HardValidationError::InvalidFieldValue {
                        field: "restore_timeout_ms",
                        value: decimal_string(raw.restore_timeout_ms),
                        reason: "Restore timeout must not exceed 100ms for latency requirements".to_string(),
                    },
                ),
            );
        }
        Ok(
            OrchestratorConfig {
                shm_buffer_size: raw.shm_buffer_size,
                warm_pool_size: raw.warm_pool_size,
                restore_timeout_ms: raw.restore_timeout_ms,
                snapshot_dir: raw.snapshot_dir,
            },
        )
    }

    /// Check one function's settings, in order: identifier, memory limit,
    /// port, timeout in [1, 900000] ms, non-empty environment names. The
    /// handler path is not checked here.
    pub fn validate_function(raw: RawFunctionConfig, index: usize) -> (res: Result<
        FunctionConfig,
        AetherError,
    >)
        requires
            valid_function_id(raw.id@) ==> raw.memory_limit_mb * BYTES_PER_MB <= u64::MAX,
            env_names_distinct(env_view(raw.environment@)),
        ensures
            res is Ok <==> function_fault(raw) is None,
            match res {
                Ok(c) => c@ == function_config_of(raw) && env_names_distinct(c@.environment),
                Err(e) => function_error(e, raw, index as int),
            },
    {
        proof {
            reveal_strlit("id");
            reveal_strlit("memory_limit_mb");
            reveal_strlit("timeout_ms");
            reveal_strlit("environment");
        }
        let id = match FunctionId::new(raw.id.as_str()) {
            Ok(id) => id,
            Err(e) => {
                let (value, reason) = match e {
                    HardValidationError::InvalidFieldValue { value, reason, .. } => (value, reason),
                    _ => (raw.id.clone(), "Invalid function ID".to_string()),
                };
                return Err(
                    AetherError::HardValidation(
                        HardValidationError::InvalidFieldValue { field: "id", value, reason },
                    ),
                );
            },
        };
        let memory_limit = match MemoryLimit::from_mb(raw.memory_limit_mb) {
            Ok(m) => m,
            Err(e) => {
                return Err(
                    AetherError::HardValidation(
                        HardValidationError::InvalidFieldValue {
                            field: "memory_limit_mb",
                            value: decimal_string(raw.memory_limit_mb),
                            reason: e.message(),
                        },
                    ),
                );
            },
        };
        let trigger_port = match Port::new(raw.trigger_port) {
            Ok(p) => p,
            Err(e) => {
                return Err(AetherError::HardValidation(e));
            },
        };
        let handler_path = HandlerPath::new_unchecked(raw.handler_path.as_str());
        if raw.timeout_ms == 0 {
            return Err(
                AetherError::HardValidation(
                    HardValidationError::InvalidFieldValue {
                        field: "timeout_ms",
                        value: "0".to_string(),
                        reason: "Timeout must be greater than 0".to_string(),
                    },
                ),
            );
        }
        if raw.timeout_ms > MAX_TIMEOUT_MS {
            return Err(
                AetherError::HardValidation(
                    HardValidationError::InvalidFieldValue {
                        field: "timeout_ms",
                        value: decimal_string(raw.timeout_ms),
                        reason: "Timeout must not exceed 15 minutes (900000ms)".to_string(),
                    },
                ),
            );
        }
        let n = raw.environment.len();
        let mut k: usize = 0;
        #[verifier::loop_isolation(false)]
        while k < n
            invariant
                k <= n,
                n == raw.environment@.len(),
                forall|j: int| 0 <= j < k ==> (#[trigger] raw.environment@[j]).0@.len() != 0,
            decreases n - k,
        {
            if raw.environment[k].0.as_str().is_empty() {
                assert(raw.environment@[k as int].0@.len() == 0);
                return Err(
                    AetherError::HardValidation(
                        HardValidationError::InvalidFieldValue {
                            field: "environment",
                            value: env_key_context(index),
                            reason: "Environment variable names cannot be empty".to_string(),
                        },
                    ),
                );
            }
            k = k + 1;
        }
        Ok(
            FunctionConfig {
                id,
                memory_limit,
                trigger_port,
                handler_path,
                environment: raw.environment,
                timeout_ms: raw.timeout_ms,
            },
        )
    }
}

impl ConfigLoader {
    /// Check a whole configuration: the orchestrator settings, then each
    /// function in turn (its own fields, then that neither its identifier nor
    /// its port repeats an earlier function's), then that there is at least
    /// one function. The first failed check is reported.
    pub fn validate(raw: RawConfig) -> (res: Result<Config, AetherError>)
        requires
            reached_limits_convertible(raw),
            forall|i: int| 0 <= i < raw.functions@.len() ==> env_names_distinct(env_view((#[trigger] raw.functions@[i]).environment@)),
        ensures
            res is Ok <==> config_fault(raw) is None,
            match res {
                Ok(c) => {
                    &&& 65536 <= c.orchestrator.shm_buffer_size <= 1073741824
                    &&& 1 <= c.orchestrator.warm_pool_size <= 1000
                    &&& c.orchestrator.restore_timeout_ms <= 100
                    &&& c.orchestrator.shm_buffer_size == raw.orchestrator.shm_buffer_size
                    &&& c.orchestrator.warm_pool_size == raw.orchestrator.warm_pool_size
                    &&& c.orchestrator.restore_timeout_ms == raw.orchestrator.restore_timeout_ms
                    &&& c.orchestrator.snapshot_dir@ == raw.orchestrator.snapshot_dir@
                    &&& c.functions@.len() == raw.functions@.len()
                    &&& forall|i: int|
                        0 <= i < c.functions@.len() ==> (#[trigger] c.functions@[i])@
                            == function_config_of(raw.functions@[i])
                    &&& forall|i: int| 0 <= i < c.functions@.len() ==> env_names_distinct((#[trigger] c.functions@[i])@.environment)
                },
                Err(e) => config_error(e, raw),
            },
    {
        let ghost fs = raw.functions@;
        let RawConfig { orchestrator: raw_orchestrator, functions: raw_functions } = raw;
        let orchestrator = match Self::validate_orchestrator(raw_orchestrator) {
            Ok(o) => o,
            Err(e) => {
                return Err(e);
            },
        };
        proof {
            lemma_first_refused_not_before(fs, 0);
        }
        let mut remaining = raw_functions;
        let mut functions: Vec<FunctionConfig> = Vec::new();
        let mut index: usize = 0;
        let total = remaining.len();
        while index < total
            invariant
                index <= total,
                total == fs.len(),
                raw.functions@ == fs,
                remaining@ == fs.subrange(index as int, fs.len() as int),
                functions@.len() == index,
                reached_limits_convertible(raw),
                forall|i: int| 0 <= i < fs.len() ==> env_names_distinct(env_view((#[trigger] fs[i]).environment@)),
                index <= first_refused_from(fs, 0),
                orchestrator_fault(raw.orchestrator) is None,
                forall|j: int|
                    0 <= j < index ==> (#[trigger] functions@[j])@ == function_config_of(fs[j]),
                functions_fault_from(fs, 0) == functions_fault_from(fs, index as int),
                first_refused_from(fs, 0) == first_refused_from(fs, index as int),
            decreases total - index,
        {
            let raw_func = remaining.remove(0);
            let func = match Self::validate_function(raw_func, index) {
                Ok(f) => f,
                Err(e) => {
                    return Err(e);
                },
            };
            let mut j: usize = 0;
            #[verifier::loop_isolation(false)]
            while j < functions.len()
                invariant
                    j <= functions@.len(),
                    forall|k: int| 0 <= k < j ==> (#[trigger] functions@[k])@.id != func@.id,
                decreases functions@.len() - j,
            {
                if functions[j].id.same_as(&func.id) {
                    assert(fs[j as int].id@ == fs[index as int].id@);
                    return Err(
                        AetherError::HardValidation(
                            HardValidationError::DuplicateFunctionId {
                                id: func.id.as_str().to_string(),
                            },
                        ),
                    );
                }
                j = j + 1;
            }
            assert(!repeats_id(fs, index as int)) by {
                assert forall|k: int| 0 <= k < index implies (#[trigger] fs[k]).id@ != fs[index as int].id@ by {
                    assert(functions@[k]@.id != func@.id);
                }
            }
            let port = func.trigger_port.value();
            let mut j: usize = 0;
            #[verifier::loop_isolation(false)]
            while j < functions.len()
                invariant
                    j <= functions@.len(),
                    port == func@.trigger_port,
                    forall|k: int| 0 <= k < j ==> (#[trigger] functions@[k])@.trigger_port != port,
                decreases functions@.len() - j,
            {
                if functions[j].trigger_port.value() == port {
                    assert(fs[j as int].trigger_port == fs[index as int].trigger_port);
                    return Err(
                        AetherError::HardValidation(
                            HardValidationError::InvalidPort { port, reason: port_in_use_reason(port) },
                        ),
                    );
                }
                j = j + 1;
            }
            assert(!repeats_port(fs, index as int)) by {
                assert forall|k: int| 0 <= k < index implies (#[trigger] fs[k]).trigger_port != fs[index as int].trigger_port by {
                    assert(functions@[k]@.trigger_port != port);
                }
            }
            assert(fault_at(fs, index as int) is None);
            assert(functions_fault_from(fs, index as int) == functions_fault_from(fs, index as int + 1));
            assert(first_refused_from(fs, index as int) == first_refused_from(fs, index as int + 1));
            proof {
                lemma_first_refused_not_before(fs, index as int + 1);
            }
            functions.push(func);
            index = index + 1;
        }
        if functions.len() == 0 {
            return Err(
                AetherError::HardValidation(
                    HardValidationError::SchemaValidation {
                        message: "At least one function must be defined".to_string(),
                    },
                ),
            );
        }
        Ok(Config { orchestrator, functions })
    }
}

/// The reason given for a port that an earlier function already uses.
fn port_in_use_reason(port: u16) -> (r: String)
    ensures
        r@ == port_in_use(port),
{
    let mut m = "Port ".to_string();
    m.append(decimal_string(port as u64).as_str());
    m.append(" is already used by another function");
    m
}

/// Where an empty environment name was found.
fn env_key_context(index: usize) -> (r: String)
    ensures
        r@ == empty_env_key_context(index as int),
{
    let mut m = "empty key in function at index ".to_string();
    m.append(decimal_string(index as u64).as_str());
    m
}


/// With no fault from function `n` on, no function from `n` on has a fault.
proof fn lemma_no_fault_from(fs: Seq<RawFunctionConfig>, n: int)
    requires
        0 <= n,
        functions_fault_from(fs, n) is None,
    ensures
        forall|i: int| n <= i < fs.len() ==> (#[trigger] fault_at(fs, i)) is None,
    decreases fs.len() - n,
{
    if n < fs.len() {
        lemma_no_fault_from(fs, n + 1);
    }
}

/// A configuration that passes every check has valid orchestrator settings,
/// at least one function, each function's own fields pass their checks, and
/// no two functions share an identifier or a trigger port.
pub proof fn law_accepted_config_is_consistent(raw: RawConfig)
    requires
        config_fault(raw) is None,
    ensures
        orchestrator_fault(raw.orchestrator) is None,
        raw.functions@.len() > 0,
        forall|i: int| 0 <= i < raw.functions@.len() ==> (#[trigger] function_fault(raw.functions@[i])) is None,
        forall|i: int, j: int|
            0 <= i < j < raw.functions@.len() ==> (#[trigger] raw.functions@[i]).id@ != (#[trigger] raw.functions@[j]).id@
                && raw.functions@[i].trigger_port != raw.functions@[j].trigger_port,
{
    let fs = raw.functions@;
    lemma_no_fault_from(fs, 0);
    assert forall|i: int| 0 <= i < fs.len() implies (#[trigger] function_fault(fs[i])) is None by {
        assert(fault_at(fs, i) is None);
    }
    assert forall|i: int, j: int| 0 <= i < j < fs.len() implies (#[trigger] fs[i]).id@ != (#[trigger] fs[j]).id@
        && fs[i].trigger_port != fs[j].trigger_port by {
        assert(fault_at(fs, j) is None);
        assert(!repeats_id(fs, j));
        assert(!repeats_port(fs, j));
    }
}

/// The orchestrator settings are accepted exactly when the shared-memory
/// buffer is between 64 KB and 1 GB, the warm pool holds 1 to 1000
/// functions and the restore limit is at most 100 ms; the first bound
/// broken, in that order, is the one reported.
pub proof fn law_orchestrator_bounds(raw: RawOrchestratorConfig)
    ensures
        orchestrator_fault(raw) is None <==> {
            &&& 65536 <= raw.shm_buffer_size <= 1073741824
            &&& 1 <= raw.warm_pool_size <= 1000
            &&& raw.restore_timeout_ms <= 100
        },
        !(65536 <= raw.shm_buffer_size <= 1073741824) ==> (orchestrator_fault(raw) matches Some(ConfigFault::ShmBufferSize)),
        65536 <= raw.shm_buffer_size <= 1073741824 && !(1 <= raw.warm_pool_size <= 1000) ==> (orchestrator_fault(raw) matches Some(ConfigFault::WarmPoolSize)),
        65536 <= raw.shm_buffer_size <= 1073741824 && 1 <= raw.warm_pool_size <= 1000 && raw.restore_timeout_ms > 100
            ==> (orchestrator_fault(raw) matches Some(ConfigFault::RestoreTimeout)),
        forall|e: AetherError|
            #[trigger] orchestrator_error(e, raw) && !(65536 <= raw.shm_buffer_size <= 1073741824) ==> (e matches AetherError::HardValidation(
                HardValidationError::InvalidFieldValue { field, .. },
            ) && field@ == "shm_buffer_size"@),
{
}

/// One function's settings are accepted exactly when its identifier is
/// valid, its memory limit is 1 to 16384 MB, its port is not 0, its timeout
/// is 1 ms to 15 minutes, and no environment variable has an empty name.
pub proof fn law_function_checks(raw: RawFunctionConfig)
    requires
        raw.memory_limit_mb * BYTES_PER_MB <= u64::MAX,
    ensures
        function_fault(raw) is None <==> {
            &&& valid_function_id(raw.id@)
            &&& 1 <= raw.memory_limit_mb <= 16384
            &&& raw.trigger_port != 0
            &&& 1 <= raw.timeout_ms <= 900000
            &&& forall|k: int| 0 <= k < raw.environment@.len() ==> (#[trigger] raw.environment@[k]).0@.len() > 0
        },
{
    let mb = raw.memory_limit_mb as int;
    assert(((mb * 1048576) as u64) as int == mb * 1048576);
    assert(1048576 <= mb * 1048576 <= 17179869184 <==> 1 <= mb <= 16384) by (nonlinear_arith);
}

} // verus!
