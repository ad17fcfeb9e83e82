[package]
name = "compas"
version = "0.1.0"
edition = "2021"
publish = false

[dependencies]
serde_json = "=1.0.154"
pulldown-cmark = { version = "=0.12.2", default-features = false }
chrono = { version = "=0.4.45", features = ["serde"] }
croner = "=3.0.1"
ulid = "=1.2.1"
tokio = { version = "=1.54.1", features = ["sync", "rt", "rt-multi-thread", "macros", "time"] }
ratatui = { version = "=0.29.0", features = ["unstable-rendered-line-info"] }
crossterm = "=0.28.1"
rmcp = { version = "=1.8.0", features = ["server", "macros", "transport-io"] }
schemars = "=1.2.3"
serde = { version = "=1.0.229", features = ["derive"] }
serde_yaml = "=0.9.34"
sqlx = { version = "=0.8.6", default-features = false }
thiserror = "=2.0.21"
tracing = "=0.1.44"
arc-swap = "=1.9.3"
