[package]
name = "tracing-honeycomb"
version = "0.1.0"
edition = "2021"
publish = false

[dependencies]
libhoney-rust = "0.1"
serde_json = "1"
tracing = { version = "0.1", default-features = false, features = ["std"] }
