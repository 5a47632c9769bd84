//! Decisions the orchestrator takes while starting functions.

use vstd::prelude::*;

use crate::state::FunctionState;

verus! {

/// The state a function enters once its handler is up: `WarmSnapshot` when
/// the warm pool is enabled and its snapshot was taken, `Running` otherwise.
pub fn post_spawn_state(warm_pool_enabled: bool, snapshot_created: bool) -> (r: FunctionState)
    ensures
        r == if warm_pool_enabled && snapshot_created {
            FunctionState::WarmSnapshot
        } else {
            FunctionState::Running
        },
{
    if warm_pool_enabled && snapshot_created {
        FunctionState::WarmSnapshot
    } else {
        FunctionState::Running
    }
}

/// The status mark of a function: filled while running, hollow otherwise.
pub fn status_icon(state: FunctionState) -> (r: &'static str)
    ensures
        r@ == if state == FunctionState::Running {
            "●"@
        } else {
            "○"@
        },
{
    if state == FunctionState::Running {
        "●"
    } else {
        "○"
    }
}

} // verus!
