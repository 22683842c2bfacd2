[package]
name = "rust_whisper_app"
version = "0.1.0"
edition = "2021"
publish = false

[dependencies]
pyo3 = "*"
tokio = { version = "*", features = ["rt-multi-thread", "macros", "fs"] }
clap = "*"
futures = "*"
log = "*"
env_logger = "*"
serde = { version = "*", features = ["derive"] }
serde_json = "*"
thiserror = "*"
