//! The status snapshot the orchestrator publishes for the dashboard.

use vstd::prelude::*;

use crate::config::FunctionConfig;
use crate::state::FunctionState;
use crate::types::{FunctionId, BYTES_PER_MB};

verus! {

/// The published status of one function.
#[derive(Debug, Clone)]
pub struct FunctionStatus {
    pub id: FunctionId,
    pub state: FunctionState,
    pub pid: Option<u32>,
    pub port: u16,
    pub memory_mb: u64,
    pub restore_count: u64,
    pub last_restore_ms: Option<u64>,
}

/// The published status of the orchestrator: each function's status, the
/// measured shared-memory latency, the running instances, and whether the
/// warm pool is active.
#[derive(Debug, Clone, Default)]
pub struct AetherlessStats {
    pub functions: Vec<FunctionStatus>,
    pub shm_latency_us: u64,
    pub active_instances: usize,
    pub warm_pool_active: bool,
}

impl FunctionStatus {
    /// The status of a function in `state` as its configuration describes
    /// it: its port and memory limit in megabytes; no process, no restore
    /// recorded.
    pub fn of_config(config: &FunctionConfig, state: FunctionState) -> (r: FunctionStatus)
        ensures
            r.id@ == config@.id,
            r.state == state,
            r.pid is None,
            r.port == config@.trigger_port,
            r.memory_mb == config@.memory_limit / BYTES_PER_MB,
            r.restore_count == 0,
            r.last_restore_ms is None,
    {
        FunctionStatus {
            id: config.id.clone(),
            state,
            pid: None,
            port: config.trigger_port.value(),
            memory_mb: config.memory_limit.megabytes(),
            restore_count: 0,
            last_restore_ms: None,
        }
    }
}

} // verus!
