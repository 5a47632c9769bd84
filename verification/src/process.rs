//! How a handler process is launched and how it reports readiness: the
//! control socket's path, the command line, the environment it receives,
//! and the `READY` message it sends once initialized.

use vstd::prelude::*;
use vstd::string::StringExecFns;

use crate::config::FunctionConfig;
use crate::criu::{join_dir, join_path};
use crate::text::{decimal, decimal_string};
use crate::types::FunctionId;

verus! {

/// The message a handler sends on its control socket once it is ready.
pub const READY_SIGNAL: [u8; 5] = [82u8, 69u8, 65u8, 68u8, 89u8];

/// Seconds to wait for a handler's `READY` message.
pub const READY_TIMEOUT_SECS: u64 = 30;

/// The bytes `READY`.
pub open spec fn ready_bytes() -> Seq<u8> {
    seq![82u8, 69u8, 65u8, 68u8, 89u8]
}

/// Whether the first `n` bytes read into `buf` begin with `READY`.
pub fn is_ready_signal(buf: &[u8], n: usize) -> (r: bool)
    requires
        n <= buf@.len(),
    ensures
        r == (n >= 5 && buf@.take(5) == ready_bytes()),
{
    if n < 5 {
        return false;
    }
    let ok = buf[0] == 82u8 && buf[1] == 69u8 && buf[2] == 65u8 && buf[3] == 68u8 && buf[4] == 89u8;
    proof {
        if ok {
            assert(buf@.take(5) =~= ready_bytes());
        } else {
            if buf@.take(5) == ready_bytes() {
                assert(buf@.take(5)[0] == buf@[0]);
                assert(buf@.take(5)[1] == buf@[1]);
                assert(buf@.take(5)[2] == buf@[2]);
                assert(buf@.take(5)[3] == buf@[3]);
                assert(buf@.take(5)[4] == buf@[4]);
            }
        }
    }
    ok
}

/// What happened on the control socket in one round of waiting for a
/// handler's `READY` message.
pub enum ReadyEvent {
    /// A connection was accepted and these bytes were read from it.
    Received(Vec<u8>),
    /// A connection was accepted but reading from it failed.
    ReadFailed,
    /// No connection is pending yet.
    NoConnection,
    /// Accepting a connection failed.
    AcceptFailed,
}

/// What the orchestrator does next while waiting for `READY`.
#[derive(Debug, Clone, Copy, PartialEq, Eq, Structural)]
pub enum ReadyAction {
    /// The handler is ready.
    Ready,
    /// Wait for the next connection at once.
    Retry,
    /// Pause, then wait again.
    PauseThenRetry,
    /// Give up: the socket failed.
    Abort,
}

/// Milliseconds the orchestrator pauses when no connection is pending.
pub const READY_POLL_MS: u64 = 50;

/// The decision after one round of waiting: a message that begins with
/// `READY` ends the wait; any other message or a failed read waits again at
/// once; no pending connection pauses first; a failed accept gives up.
pub fn ready_action(event: &ReadyEvent) -> (r: ReadyAction)
    ensures
        r == (match event {
            ReadyEvent::Received(bytes) => if bytes@.len() >= 5 && bytes@.take(5) == ready_bytes() {
                ReadyAction::Ready
            } else {
                ReadyAction::Retry
            },
            ReadyEvent::ReadFailed => ReadyAction::Retry,
            ReadyEvent::NoConnection => ReadyAction::PauseThenRetry,
            ReadyEvent::AcceptFailed => ReadyAction::Abort,
        }),
{
    match event {
        ReadyEvent::Received(bytes) => {
            if is_ready_signal(bytes.as_slice(), bytes.len()) {
                ReadyAction::Ready
            } else {
                ReadyAction::Retry
            }
        },
        ReadyEvent::ReadFailed => ReadyAction::Retry,
        ReadyEvent::NoConnection => ReadyAction::PauseThenRetry,
        ReadyEvent::AcceptFailed => ReadyAction::Abort,
    }
}

/// Whether the wait for `READY` is over after `elapsed_ms` milliseconds.
pub fn ready_wait_expired(elapsed_ms: u128) -> (r: bool)
    ensures
        r == (elapsed_ms >= READY_TIMEOUT_SECS * 1000),
{
    elapsed_ms >= (READY_TIMEOUT_SECS as u128) * 1000
}

/// The control socket of a function: `<id>.sock` in `socket_dir`.
pub fn socket_path(socket_dir: &str, function_id: &FunctionId) -> (r: String)
    ensures
        r@ == join_path(socket_dir@, function_id@ + ".sock"@),
{
    let mut name = function_id.as_str().to_string();
    name.append(".sock");
    join_dir(socket_dir, name.as_str())
}

/// The extension of a path's file name, as `Path::extension` gives it.
pub uninterp spec fn path_extension_of(path: Seq<char>) -> Option<Seq<char>>;

/// `std::path::Path::extension` of `path` (a string path, so the extension
/// is valid text). Claimed: the result is `path_extension_of(path)`.
#[verifier::external_body]
fn path_extension(path: &str) -> (r: Option<String>)
    ensures
        match r {
            Some(e) => path_extension_of(path@) == Some(e@),
            None => path_extension_of(path@) is None,
        },
{
    std::path::Path::new(path).extension().map(|e| e.to_string_lossy().to_string())
}

/// The program and arguments that run the handler at `handler_path`, given
/// the extension of its file name: a Python script (`py`) runs under
/// `python3`; anything else is executed directly.
pub open spec fn launch_with_extension(handler_path: Seq<char>, extension: Option<Seq<char>>) -> (
    Seq<char>,
    Seq<Seq<char>>,
) {
    if extension == Some("py"@) {
        ("python3"@, seq![handler_path])
    } else {
        (handler_path, Seq::empty())
    }
}

/// The program and arguments that run a handler, its extension read as
/// `Path::extension` reads it.
pub open spec fn launch_spec(handler_path: Seq<char>) -> (Seq<char>, Seq<Seq<char>>) {
    launch_with_extension(handler_path, path_extension_of(handler_path))
}

/// The text of an optional string.
pub open spec fn text_option(o: Option<&str>) -> Option<Seq<char>> {
    match o {
        Some(e) => Some(e@),
        None => None,
    }
}

/// The program and arguments that run the handler at `handler_path` whose
/// file name has extension `extension`.
pub fn launch_command_for_extension(handler_path: &str, extension: Option<&str>) -> (r: (String, Vec<String>))
    ensures
        r.0@ == launch_with_extension(handler_path@, text_option(extension)).0,
        r.1@.map_values(|a: String| a@) == launch_with_extension(handler_path@, text_option(extension)).1,
{
    let py = "py".to_string();
    let is_python = match extension {
        Some(e) => e.to_string() == py,
        None => false,
    };
    if is_python {
        let mut args: Vec<String> = Vec::new();
        args.push(handler_path.to_string());
        proof {
            assert(args@.map_values(|a: String| a@) =~= seq![handler_path@]);
        }
        ("python3".to_string(), args)
    } else {
        let args: Vec<String> = Vec::new();
        proof {
            assert(args@.map_values(|a: String| a@) =~= Seq::<Seq<char>>::empty());
        }
        (handler_path.to_string(), args)
    }
}

/// The program and arguments that run the handler at `handler_path`.
pub fn launch_command(handler_path: &str) -> (r: (String, Vec<String>))
    ensures
        r.0@ == launch_spec(handler_path@).0,
        r.1@.map_values(|a: String| a@) == launch_spec(handler_path@).1,
{
    let extension = path_extension(handler_path);
    match extension {
        Some(e) => launch_command_for_extension(handler_path, Some(e.as_str())),
        None => launch_command_for_extension(handler_path, None),
    }
}

/// The variables the orchestrator sets for a handler.
pub open spec fn is_aether_key(k: Seq<char>) -> bool {
    k == "AETHER_SOCKET"@ || k == "AETHER_FUNCTION_ID"@ || k == "AETHER_TRIGGER_PORT"@
}

/// The environment of a handler: the function's own variables, except
/// those the orchestrator sets, then the control socket, the function
/// identifier and the trigger port.
pub open spec fn handler_env_spec(
    env: Seq<(Seq<char>, Seq<char>)>,
    socket: Seq<char>,
    id: Seq<char>,
    port: u16,
) -> Seq<(Seq<char>, Seq<char>)> {
    env.filter(|kv: (Seq<char>, Seq<char>)| !is_aether_key(kv.0)) + seq![
        ("AETHER_SOCKET"@, socket),
        ("AETHER_FUNCTION_ID"@, id),
        ("AETHER_TRIGGER_PORT"@, decimal(port as nat)),
    ]
}

/// The environment a function's handler is started with, given its control
/// socket path.
pub fn handler_environment(config: &FunctionConfig, socket_path: &str) -> (r: Vec<(String, String)>)
    ensures
        r@.map_values(|kv: (String, String)| (kv.0@, kv.1@)) == handler_env_spec(
            config@.environment,
            socket_path@,
            config@.id,
            config@.trigger_port,
        ),
{
    let k_socket = "AETHER_SOCKET".to_string();
    let k_id = "AETHER_FUNCTION_ID".to_string();
    let k_port = "AETHER_TRIGGER_PORT".to_string();
    let ghost env = config@.environment;
    let ghost pred = |kv: (Seq<char>, Seq<char>)| !is_aether_key(kv.0);
    let mut out: Vec<(String, String)> = Vec::new();
    let n = config.environment.len();
    let mut i: usize = 0;
    while i < n
        invariant
            i <= n,
            n == config.environment@.len(),
            env == config@.environment,
            env.len() == n,
            k_socket@ == "AETHER_SOCKET"@,
            k_id@ == "AETHER_FUNCTION_ID"@,
            k_port@ == "AETHER_TRIGGER_PORT"@,
            pred == (|kv: (Seq<char>, Seq<char>)| !is_aether_key(kv.0)),
            out@.map_values(|kv: (String, String)| (kv.0@, kv.1@)) == env.take(i as int).filter(pred),
        decreases n - i,
    {
        let pair = &config.environment[i];
        proof {
            assert(env[i as int] == (pair.0@, pair.1@));
            assert(env.take(i + 1).drop_last() =~= env.take(i as int));
            assert(env.take(i + 1).last() == env[i as int]);
        }
        let reserved = pair.0 == k_socket || pair.0 == k_id || pair.0 == k_port;
        proof {
            assert(reserved == is_aether_key(env[i as int].0));
            reveal(Seq::filter);
            assert(env.take(i + 1).filter(pred) == if pred(env[i as int]) {
                env.take(i as int).filter(pred).push(env[i as int])
            } else {
                env.take(i as int).filter(pred)
            });
        }
        if !reserved {
            let ghost prev = out@;
            out.push((pair.0.clone(), pair.1.clone()));
            proof {
                assert(out@.map_values(|kv: (String, String)| (kv.0@, kv.1@)) =~= prev.map_values(
                    |kv: (String, String)| (kv.0@, kv.1@),
                ).push(env[i as int]));
            }
        }
        i = i + 1;
    }
    proof {
        assert(env.take(n as int) =~= env);
    }
    let ghost before = out@;
    out.push((k_socket, socket_path.to_string()));
    out.push((k_id, config.id.as_str().to_string()));
    out.push((k_port, decimal_string(config.trigger_port.value() as u64)));
    proof {
        assert(out@.map_values(|kv: (String, String)| (kv.0@, kv.1@)) =~= handler_env_spec(
            config@.environment,
            socket_path@,
            config@.id,
            config@.trigger_port,
        ));
    }
    out
}

} // verus!
