[package]
name = "container_runtime"
version = "0.1.0"
edition = "2021"
publish = false

[dependencies]
anyhow = "1"
clap = { version = "4", features = ["derive"] }
nix = { version = "0.30", features = ["sched", "mount", "process", "signal", "fs", "user"] }
serde = { version = "1", features = ["derive"] }
serde_json = "1"
