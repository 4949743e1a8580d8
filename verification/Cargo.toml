[package]
name = "interference-mitigation"
version = "0.1.0"
edition = "2021"
publish = false

[dependencies]
rand = { version = "=0.9.5", features = ["small_rng"] }
itertools = "=0.15.0"
spin = "=0.12.3"
serde = { version = "=1.0.229", features = ["derive"] }
serde_json = "=1.0.154"
serde-json-core = "=0.7.0"
serde_nanos = "=0.1.4"
embedded-io = "=0.7.1"
anyhow = "=1.0.104"
clap = { version = "=4.6.7", features = ["derive"] }
ipmpsc = "=0.5.1"
tokio = { version = "=1.54.1", features = ["full"] }
tokio-util = "=0.7.20"
futures = "=0.3.34"
toml = "=1.1.8"
env_logger = "=0.11.11"
log = "=0.4.35"
procfs = "=0.18.0"
nix = { version = "=0.31.3", features = ["fs", "sched"] }
walkdir = "=2.5.0"
