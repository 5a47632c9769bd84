//! Verified core of a serverless function orchestrator: validated input
//! types, the function lifecycle state machine, configuration validation,
//! the shared-memory ring buffer and its payload framing, the registry of
//! functions, CPU placement, snapshot and warm-pool bookkeeping, the XDP
//! port map, gossip membership with signed messages, shared storage, the
//! benchmark timing harness and the order statistics of latency samples.

pub mod error;
pub mod types;
pub mod conversions;
mod clock;
pub mod state;
pub mod shm;

pub mod config;
pub mod registry;
pub mod cpu_list;
pub mod cpu_affinity;
pub mod storage;
pub mod cluster;
pub mod xdp;
pub mod criu;
pub mod warm_pool;
pub mod harness;
pub mod process;
pub mod stats;
pub mod orchestrator;
pub mod gateway;
pub mod text;
pub mod latency;
pub mod dashboard;
