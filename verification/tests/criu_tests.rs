use std::time::SystemTime;

use aetherless::config::FunctionConfig;
use aetherless::criu::{
    dump_args, join_dir, parse_pid_file, restore_args, restored_pid_file, SnapshotManager, DEFAULT_RESTORE_TIMEOUT_MS,
};
use aetherless::error::CriuError;
use aetherless::state::FunctionState;
use aetherless::types::{FunctionId, HandlerPath, MemoryLimit, Port};
use aetherless::warm_pool::WarmPoolManager;

#[test]
fn test_snapshot_path() {
    let function_id = FunctionId::new("test-func").unwrap();
    let manager = SnapshotManager::new("/dev/shm/aetherless", DEFAULT_RESTORE_TIMEOUT_MS, "/usr/sbin/criu");
    let path = manager.snapshot_path(&function_id);
    assert!(path.contains("test-func"));
    assert_eq!(path, "/dev/shm/aetherless/criu_dump_test-func");
}

#[test]
fn paths_join_like_path_join() {
    assert_eq!(join_dir("/a/", "b"), "/a/b");
    assert_eq!(join_dir("/a", "b"), "/a/b");
    assert_eq!(join_dir("", "b"), "b");
}

#[test]
fn pid_files_are_trimmed_and_parsed() {
    assert_eq!(parse_pid_file("4242\n"), Some(4242));
    assert_eq!(parse_pid_file("  17 "), Some(17));
    assert_eq!(parse_pid_file("4294967296"), None);
    assert_eq!(parse_pid_file("abc"), None);
    assert_eq!(parse_pid_file(""), None);
}

#[test]
fn records_are_kept_per_function() {
    let mut m = SnapshotManager::new("/snap", 15, "/bin/criu");
    let a = FunctionId::new("a").unwrap();
    let b = FunctionId::new("b").unwrap();
    let t = SystemTime::now();
    let meta = m.record_snapshot(&a, 100, t);
    assert_eq!(meta.path, "/snap/criu_dump_a");
    assert_eq!(meta.original_pid, 100);
    m.record_snapshot(&b, 200, t);
    m.record_snapshot(&a, 300, t);
    assert_eq!(m.list_snapshots().len(), 2);
    assert_eq!(m.get_metadata(&a).unwrap().original_pid, 300);
    assert_eq!(m.restore_source(&b).unwrap(), "/snap/criu_dump_b");
    let removed = m.remove_record(&a).unwrap();
    assert_eq!(removed.original_pid, 300);
    assert!(m.get_metadata(&a).is_none());
    assert!(matches!(m.restore_source(&a), Err(CriuError::SnapshotNotFound { .. })));
    assert!(m.remove_record(&a).is_none());
}

#[test]
fn restore_outcomes_follow_the_latency_limit() {
    let m = SnapshotManager::new("/snap", 15, "/bin/criu");
    assert_eq!(m.judge_restore(10, true, "", Ok("77\n")).unwrap(), 77);
    match m.judge_restore(16, true, "", Ok("77")) {
        Err(CriuError::LatencyViolation { actual_ms, limit_ms }) => {
            assert_eq!(actual_ms, 16);
            assert_eq!(limit_ms, 15);
        }
        _ => panic!("expected a latency violation"),
    }
    match m.judge_restore(15, false, "boom", Ok("77")) {
        Err(CriuError::RestoreFailed { reason }) => assert_eq!(reason, "CRIU restore failed: boom"),
        _ => panic!("expected a restore failure"),
    }
    match m.judge_restore(1, true, "", Err("No such file or directory (os error 2)")) {
        Err(CriuError::RestoreFailed { reason }) => {
            assert_eq!(reason, "Failed to read PID file: No such file or directory (os error 2)")
        }
        _ => panic!("expected a restore failure"),
    }
    let reason_for = |text: &str| match m.judge_restore(1, true, "", Ok(text)) {
        Err(CriuError::RestoreFailed { reason }) => reason,
        _ => panic!("expected a restore failure"),
    };
    assert_eq!(reason_for("x"), "Invalid PID: invalid digit found in string");
    assert_eq!(reason_for("  \n"), "Invalid PID: cannot parse integer from empty string");
    assert_eq!(reason_for("+"), "Invalid PID: invalid digit found in string");
    assert_eq!(reason_for("4294967296"), "Invalid PID: number too large to fit in target type");
    assert_eq!(reason_for("-1"), "Invalid PID: invalid digit found in string");
    assert_eq!(m.judge_restore(1, true, "", Ok("+42")).unwrap(), 42);
}

fn config(name: &str) -> FunctionConfig {
    FunctionConfig {
        id: FunctionId::new(name).unwrap(),
        memory_limit: MemoryLimit::from_mb(128).unwrap(),
        trigger_port: Port::new(8080).unwrap(),
        handler_path: HandlerPath::new_unchecked("/bin/echo"),
        environment: Vec::new(),
        timeout_ms: 30000,
    }
}

#[test]
fn test_warm_pool_disabled() {
    let pool = WarmPoolManager::disabled();
    assert!(!pool.is_enabled());
}

#[test]
fn test_warm_pool_stats_default() {
    let pool = WarmPoolManager::disabled();
    let stats = pool.counts();
    assert_eq!(stats.total_functions, 0);
    assert_eq!(stats.warm_count, 0);
}

#[test]
fn warm_pool_tracks_snapshots_and_restores() {
    let mut pool = WarmPoolManager::new(SnapshotManager::new("/snap", 15, "/bin/criu"), 3);
    assert_eq!(pool.pool_size(), 3);
    let id = FunctionId::new("f").unwrap();
    pool.register(config("f"));
    pool.register(config("g"));
    assert_eq!(pool.get_state(&id), FunctionState::Uninitialized);
    assert!(matches!(pool.restore_source(&id), Err(CriuError::SnapshotNotFound { .. })));
    pool.snapshot_created(&id, 41, SystemTime::now());
    assert!(pool.has_snapshot(&id));
    assert_eq!(pool.get_state(&id), FunctionState::WarmSnapshot);
    assert_eq!(pool.restore_source(&id).unwrap(), "/snap/criu_dump_f");
    pool.record_restore(&id, 9);
    pool.record_restore(&id, 11);
    assert!(pool.totals_fit());
    let c = pool.counts();
    assert_eq!(c.total_functions, 2);
    assert_eq!(c.warm_count, 1);
    assert_eq!(c.cold_count, 1);
    assert_eq!(c.total_restores, 2);
    assert_eq!(c.restore_ms_sum, 11);
    assert_eq!(c.restore_ms_samples, 1);
    let entries = pool.list_entries();
    assert_eq!(entries.len(), 2);
    let record = pool.take_snapshot_record(&id).unwrap();
    assert_eq!(record.original_pid, 41);
    pool.snapshot_deleted(&id);
    assert!(!pool.has_snapshot(&id));
    assert_eq!(pool.get_state(&id), FunctionState::Uninitialized);
}

#[test]
fn disabled_pool_ignores_everything() {
    let mut pool = WarmPoolManager::disabled();
    let id = FunctionId::new("f").unwrap();
    pool.register(config("f"));
    pool.snapshot_created(&id, 1, SystemTime::now());
    assert!(!pool.has_snapshot(&id));
    assert!(pool.list_entries().is_empty());
    assert!(matches!(pool.restore_source(&id), Err(CriuError::DumpFailed { .. })));
    assert!(pool.take_snapshot_record(&id).is_none());
}

#[test]
fn dump_command_line() {
    let args = dump_args(4242, "/var/lib/aetherless/snapshots/criu_dump_api");
    assert_eq!(
        args,
        vec![
            "dump",
            "-t",
            "4242",
            "-D",
            "/var/lib/aetherless/snapshots/criu_dump_api",
            "-j",
            "--shell-job",
            "-v4",
            "--tcp-established"
        ]
    );
}

#[test]
fn restore_command_line_names_the_pid_file() {
    let args = restore_args("/snap/criu_dump_api");
    assert_eq!(
        args,
        vec!["restore", "-D", "/snap/criu_dump_api", "-j", "--shell-job", "-d", "--pidfile", "/snap/criu_dump_api/restored.pid"]
    );
    assert_eq!(restored_pid_file("/snap/"), "/snap/restored.pid");
}
