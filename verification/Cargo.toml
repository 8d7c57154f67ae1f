[package]
name = "aq_engine"
version = "0.1.0"
edition = "2021"
publish = false

[dependencies]
chrono = "=0.4.45"
crossterm = "=0.28.1"
dashmap = "=6.2.1"
env_logger = { version = "0.11", default-features = false }
futures = "0.3"
log = "0.4"
polars = { version = "=0.55.2", default-features = false, features = ["lazy"] }
ratatui = { version = "=0.29.0", default-features = false, features = ["crossterm"] }
rustc-hash = "=2.1.3"
serde = { version = "1", features = ["derive"] }
serde_json = "=1.0.154"
sha2 = "=0.10.9"
surrealdb = { version = "*", default-features = false, features = ["protocol-ws"] }
tokio = { version = "1", features = ["rt", "rt-multi-thread", "macros", "sync", "time", "signal"] }
uuid = { version = "=1.29.0", features = ["v4", "v5"] }
