use aetherless::config::FunctionConfig;
use aetherless::gateway::{downstream_path, downstream_url, forwards_header, route_request, RouteRefusal};
use aetherless::registry::FunctionRegistry;
use aetherless::orchestrator::{post_spawn_state, status_icon};
use aetherless::process::{
    handler_environment, is_ready_signal, launch_command, launch_command_for_extension, ready_action, ready_wait_expired, socket_path,
    ReadyAction, ReadyEvent, READY_SIGNAL, READY_TIMEOUT_SECS,
};
use aetherless::state::FunctionState;
use aetherless::text::decimal_string;
use aetherless::stats::FunctionStatus;
use aetherless::types::{FunctionId, HandlerPath, MemoryLimit, Port};

#[test]
fn test_ready_signal_constant() {
    assert_eq!(&READY_SIGNAL, b"READY");
}

#[test]
fn ready_signal_needs_the_whole_word_at_the_start() {
    let mut buf = [0u8; 16];
    buf[..5].copy_from_slice(b"READY");
    assert!(is_ready_signal(&buf, 5));
    assert!(is_ready_signal(&buf, 16));
    assert!(!is_ready_signal(&buf, 4));
    let other = *b"READ!xxxxxxxxxxx";
    assert!(!is_ready_signal(&other, 16));
    assert_eq!(READY_TIMEOUT_SECS, 30);
}

#[test]
fn socket_path_joins_the_directory() {
    let id = FunctionId::new("hello").unwrap();
    assert_eq!(socket_path("/tmp/aetherless", &id), "/tmp/aetherless/hello.sock");
    assert_eq!(socket_path("/tmp/aetherless/", &id), "/tmp/aetherless/hello.sock");
    assert_eq!(socket_path("", &id), "hello.sock");
}

#[test]
fn python_handlers_run_under_python3() {
    let (program, args) = launch_command("/srv/handler.py");
    assert_eq!(program, "python3");
    assert_eq!(args, vec!["/srv/handler.py".to_string()]);
    let (program, args) = launch_command("/bin/echo");
    assert_eq!(program, "/bin/echo");
    assert!(args.is_empty());
    let (program, _) = launch_command("/srv/handler.pyc");
    assert_eq!(program, "/srv/handler.pyc");
}

#[test]
fn decimal_strings() {
    assert_eq!(decimal_string(0), "0");
    assert_eq!(decimal_string(8080), "8080");
    assert_eq!(decimal_string(u64::MAX), u64::MAX.to_string());
}

fn config() -> FunctionConfig {
    FunctionConfig {
        id: FunctionId::new("fn-a").unwrap(),
        memory_limit: MemoryLimit::from_mb(256).unwrap(),
        trigger_port: Port::new(8081).unwrap(),
        handler_path: HandlerPath::new_unchecked("/bin/echo"),
        environment: vec![
            ("DEBUG".to_string(), "1".to_string()),
            ("AETHER_SOCKET".to_string(), "stale".to_string()),
        ],
        timeout_ms: 1000,
    }
}

#[test]
fn handler_environment_sets_the_orchestrator_variables_last() {
    let env = handler_environment(&config(), "/tmp/a.sock");
    assert_eq!(
        env,
        vec![
            ("DEBUG".to_string(), "1".to_string()),
            ("AETHER_SOCKET".to_string(), "/tmp/a.sock".to_string()),
            ("AETHER_FUNCTION_ID".to_string(), "fn-a".to_string()),
            ("AETHER_TRIGGER_PORT".to_string(), "8081".to_string()),
        ]
    );
}

#[test]
fn startup_decisions() {
    assert_eq!(post_spawn_state(true, true), FunctionState::WarmSnapshot);
    assert_eq!(post_spawn_state(true, false), FunctionState::Running);
    assert_eq!(post_spawn_state(false, true), FunctionState::Running);
    assert_eq!(status_icon(FunctionState::Running), "●");
    assert_eq!(status_icon(FunctionState::Suspended), "○");
    let status = FunctionStatus::of_config(&config(), FunctionState::Running);
    assert_eq!(status.id.as_str(), "fn-a");
    assert_eq!(status.port, 8081);
    assert_eq!(status.memory_mb, 256);
    assert_eq!(status.restore_count, 0);
    assert!(status.pid.is_none());
}

#[test]
fn gateway_strips_the_function_prefix() {
    assert_eq!(downstream_path("/function/hello/api/v1?x=1", "hello"), "/api/v1?x=1");
    assert_eq!(downstream_path("/function/hello", "hello"), "/");
    assert_eq!(downstream_path("/other/path", "hello"), "/other/path");
    assert_eq!(downstream_path("/function/hel", "hello"), "/function/hel");
}

#[test]
fn ready_message_ends_the_wait() {
    let event = ReadyEvent::Received(b"READY\n".to_vec());
    assert_eq!(ready_action(&event), ReadyAction::Ready);
}

#[test]
fn other_messages_and_failed_reads_wait_again() {
    assert_eq!(ready_action(&ReadyEvent::Received(b"READ".to_vec())), ReadyAction::Retry);
    assert_eq!(ready_action(&ReadyEvent::Received(b"HELLO".to_vec())), ReadyAction::Retry);
    assert_eq!(ready_action(&ReadyEvent::ReadFailed), ReadyAction::Retry);
}

#[test]
fn no_connection_pauses_and_failed_accept_aborts() {
    assert_eq!(ready_action(&ReadyEvent::NoConnection), ReadyAction::PauseThenRetry);
    assert_eq!(ready_action(&ReadyEvent::AcceptFailed), ReadyAction::Abort);
}

#[test]
fn ready_wait_lasts_thirty_seconds() {
    assert!(!ready_wait_expired(0));
    assert!(!ready_wait_expired(29_999));
    assert!(ready_wait_expired(30_000));
}

#[test]
fn requests_are_routed_to_the_trigger_port() {
    let mut registry = FunctionRegistry::new();
    registry.register(config()).unwrap();
    assert_eq!(
        route_request(&registry, "fn-a", "/function/fn-a/items?page=2").unwrap(),
        "http://127.0.0.1:8081/items?page=2"
    );
    assert_eq!(route_request(&registry, "fn-a", "/function/fn-a").unwrap(), "http://127.0.0.1:8081/");
}

#[test]
fn unknown_and_invalid_functions_are_refused() {
    let registry = FunctionRegistry::new();
    let missing = route_request(&registry, "fn-b", "/function/fn-b").unwrap_err();
    assert_eq!(missing, RouteRefusal::NotFound);
    assert_eq!(missing.status(), 404);
    let invalid = route_request(&registry, "bad id!", "/function/bad id!").unwrap_err();
    assert_eq!(invalid, RouteRefusal::BadRequest);
    assert_eq!(invalid.status(), 400);
}

#[test]
fn host_header_is_not_forwarded() {
    assert!(!forwards_header("host"));
    assert!(forwards_header("content-type"));
    assert_eq!(downstream_url(9000, "/x"), "http://127.0.0.1:9000/x");
}

#[test]
fn launch_decided_by_extension() {
    let (program, args) = launch_command_for_extension("/srv/h.py", Some("py"));
    assert_eq!(program, "python3");
    assert_eq!(args, vec!["/srv/h.py".to_string()]);
    let (program, args) = launch_command_for_extension("/srv/h.pyc", Some("pyc"));
    assert_eq!(program, "/srv/h.pyc");
    assert!(args.is_empty());
    let (program, args) = launch_command_for_extension("/srv/h", None);
    assert_eq!(program, "/srv/h");
    assert!(args.is_empty());
    let (program, _) = launch_command("/srv/.py");
    assert_eq!(program, "/srv/.py");
}
