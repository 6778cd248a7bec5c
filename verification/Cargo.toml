[package]
name = "sandbox_job"
version = "0.1.0"
edition = "2021"
publish = false

[dependencies]
anyhow = "1"
axum = "0.5"
futures-util = "0.3"
rand = "0.8"
tokio = { version = "1", features = ["process", "rt", "macros"] }
tracing = "0.1"
