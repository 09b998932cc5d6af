[package]
name = "proxy_state"
version = "0.1.0"
edition = "2021"
publish = false

[dependencies]
rand = "0.8"
serde = { version = "1", features = ["derive"] }
tokio = { version = "1", features = ["sync", "rt", "time", "macros"] }
tracing = "0.1"
trust-dns-resolver = "0.23"
