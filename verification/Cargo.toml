[package]
name = "prim"
version = "0.1.0"
edition = "2021"
publish = false

[dependencies]
ahash = "0.8"
dashmap = "5"
async-channel = "1"
anyhow = "1"
quinn = "0.8"
rustls = "0.20"
tokio = { version = "1", features = ["full"] }
tracing = "0.1"
