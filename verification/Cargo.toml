[package]
name = "sashiko"
version = "0.1.0"
edition = "2021"
publish = false

[dependencies]
anyhow = "1"
async-trait = "0.1"
fastrand = "2"
tokio = { version = "1", features = ["rt", "sync", "time"] }
tracing = "0.1"
