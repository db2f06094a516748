[package]
name = "timing"
version = "0.1.0"
edition = "2021"
publish = false

[dependencies]
anyhow = "1"
inventory = "0.3"
pyo3 = { version = "0.20", features = ["abi3-py38", "extension-module"] }
serde = { version = "1", features = ["derive"] }
serde_json = "1"
thiserror = "1"
tracing = "0.1"
