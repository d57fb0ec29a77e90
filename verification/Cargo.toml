[package]
name = "metasrv"
version = "0.1.0"
edition = "2021"
publish = false

[dependencies]
raft = "0.7"
slog = "2"
slog-term = "2"
slog-async = "2"
prost = "*"
serde = { version = "1", features = ["derive"] }
serde_json = "1"
bincode = "1"
tokio = { version = "1", features = ["sync", "time", "rt", "rt-multi-thread", "macros"] }
rocksdb = "*"
