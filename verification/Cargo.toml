[package]
name = "aetherless"
version = "0.1.0"
edition = "2021"
publish = false

[dependencies]
crc32fast = "1"
dashmap = "6"
nix = { version = "0.29", features = ["sched"] }
num_cpus = "1"
hmac = "0.12"
sha2 = "0.10"
hex = "0.4"
libc = "0.2"
serde = { version = "1", features = ["derive"] }
serde_json = "1"
serde_yaml = "0.9"
tokio = { version = "1", features = ["full"] }
tracing = "0.1"
tracing-subscriber = { version = "0.3", features = ["env-filter"] }
thiserror = "1"
chrono = { version = "0.4", features = ["serde"] }
clap = { version = "4", features = ["derive"] }
anyhow = "1"
sysinfo = "0.32"
prometheus = { version = "0.13", default-features = false }
lazy_static = "1"
axum = "0.8"
reqwest = { version = "0.12", default-features = false }
tower-http = { version = "0.6", features = ["trace"] }
ratatui = "0.29"
crossterm = "0.28"
aya = "0.13"
