[package]
name = "stepflow"
version = "0.1.0"
edition = "2021"
publish = false

[dependencies]
uuid = { version = "1", features = ["v4"] }
serde = { version = "1", features = ["derive"] }
serde_json = "1"
serde_yaml_ng = "0.10"
tokio = { version = "1", features = ["rt-multi-thread", "sync", "process", "macros"] }
futures = "0.3"
thiserror = "2"
error-stack = "0.5"
tracing = "0.1"
which = "*"
indexmap = "2"
axum = "0.8"
