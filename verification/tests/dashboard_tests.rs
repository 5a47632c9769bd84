use aetherless::dashboard::{function_row, function_table, state_color, system_summary, FunctionTable, StateColor};
use aetherless::state::FunctionState;
use aetherless::stats::{AetherlessStats, FunctionStatus};
use aetherless::types::FunctionId;

fn status(id: &str, state: FunctionState, port: u16, memory_mb: u64) -> FunctionStatus {
    FunctionStatus {
        id: FunctionId::new(id).unwrap(),
        state,
        pid: None,
        port,
        memory_mb,
        restore_count: 0,
        last_restore_ms: None,
    }
}

#[test]
fn rows_are_ordered_by_identifier() {
    let stats = AetherlessStats {
        functions: vec![
            status("resize", FunctionState::Running, 8082, 256),
            status("auth", FunctionState::WarmSnapshot, 8080, 128),
            status("auth-v2", FunctionState::Uninitialized, 8081, 64),
        ],
        shm_latency_us: 0,
        active_instances: 3,
        warm_pool_active: true,
    };
    match function_table(Some(&stats)) {
        FunctionTable::Rows(rows) => {
            let ids: Vec<&str> = rows.iter().map(|r| r.id.as_str()).collect();
            assert_eq!(ids, vec!["auth", "auth-v2", "resize"]);
            assert_eq!(rows[0].state, "WarmSnapshot");
            assert_eq!(rows[0].color, StateColor::Blue);
            assert_eq!(rows[0].memory, "128 MB");
            assert_eq!(rows[0].port, "8080");
            assert_eq!(rows[2].color, StateColor::Green);
        }
        _ => panic!("expected rows"),
    }
}

#[test]
fn uppercase_sorts_before_lowercase() {
    let stats = AetherlessStats {
        functions: vec![status("beta", FunctionState::Running, 1, 1), status("Zeta", FunctionState::Running, 2, 1)],
        shm_latency_us: 0,
        active_instances: 2,
        warm_pool_active: false,
    };
    match function_table(Some(&stats)) {
        FunctionTable::Rows(rows) => {
            assert_eq!(rows[0].id, "Zeta");
            assert_eq!(rows[1].id, "beta");
        }
        _ => panic!("expected rows"),
    }
}

#[test]
fn table_before_any_status_and_without_functions() {
    assert!(matches!(function_table(None), FunctionTable::Waiting));
    let empty = AetherlessStats::default();
    assert!(matches!(function_table(Some(&empty)), FunctionTable::NoFunctions));
}

#[test]
fn state_colours() {
    assert_eq!(state_color(FunctionState::Running), StateColor::Green);
    assert_eq!(state_color(FunctionState::WarmSnapshot), StateColor::Blue);
    assert_eq!(state_color(FunctionState::Uninitialized), StateColor::Gray);
    assert_eq!(state_color(FunctionState::Suspended), StateColor::White);
}

#[test]
fn row_of_a_suspended_function() {
    let row = function_row(&status("worker", FunctionState::Suspended, 9000, 1024));
    assert_eq!(row.id, "worker");
    assert_eq!(row.state, "Suspended");
    assert_eq!(row.memory, "1024 MB");
    assert_eq!(row.port, "9000");
}

#[test]
fn summary_of_the_orchestrator() {
    assert_eq!(system_summary(None), (0, false));
    let stats = AetherlessStats { functions: Vec::new(), shm_latency_us: 0, active_instances: 4, warm_pool_active: true };
    assert_eq!(system_summary(Some(&stats)), (4, true));
}
