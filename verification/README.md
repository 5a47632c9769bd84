# aetherless

The verified core of a serverless function orchestrator, written in Verus.

- `src/` is the library. Every function there carries a contract that Verus
  proves: configuration validation reports the first failed check with the
  refused value, the function lifecycle allows only its fixed transitions,
  the ring buffer in a shared-memory region hands messages back in the
  order they were written and refuses a payload whose CRC32 does not match,
  CPU allocation is round robin, requests are routed to the function's
  trigger port, and the registry, warm pool, snapshot records, port map,
  gossip peer table and shared storage change exactly as their operations
  say. Latency samples are sorted and summarised (extremes, median, total,
  the evenly spaced subset kept of long runs), and the dashboard's table is
  ordered by function identifier. Calls into other crates (checksums, HMAC,
  hex, concurrent maps, CPU affinity) go through small trusted wrappers
  whose contracts are written next to them.
- `tests/` exercises the library on concrete values.
- `app/` is the `aether` command-line program around the library: argument
  parsing, YAML and JSON, processes, sockets, POSIX shared-memory mapping,
  CRIU, eBPF, HTTP, metrics, the terminal dashboard, the benchmark runner,
  and the floating-point parts of benchmark statistics and autoscaling.
