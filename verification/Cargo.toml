[package]
name = "payments_machine"
version = "0.1.0"
edition = "2021"
publish = false

[dependencies]
bincode = "1"
csv = "1"
fnv = "1"
futures = "0.3"
lru = "0.7"
rand = "0.8"
rocksdb = { version = "0.16", default-features = false }
serde = { version = "1", features = ["derive"] }
thiserror = "1"
tokio = { version = "1", features = ["rt-multi-thread", "macros", "sync"] }
tokio-stream = "0.1"
tracing = "0.1"
tracing-futures = "0.2"
