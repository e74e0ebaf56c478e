[package]
name = "distributed_diagnostics"
version = "0.1.0"
edition = "2021"
publish = false

[dependencies]
tracing = "0.1"
serde = { version = "1", features = ["derive"] }
serde_json = "1"
thiserror = "2"
jsonschema = { version = "*", default-features = false }
