[package]
name = "veddb_core"
version = "0.2.1"
edition = "2021"
publish = false

[dependencies]
regex = "=1.13.1"
sha2 = "=0.10.9"
uuid = { version = "=1.29.0", features = ["v5"] }
serde = { version = "=1.0.229", features = ["derive"] }
serde_json = "=1.0.154"
chrono = "=0.4.45"
tracing = "=0.1.44"
zstd = "=0.13.4"
tokio = { version = "1", features = ["net", "io-util", "rt", "time", "sync"] }
prometheus = { version = "0.13", default-features = false }
