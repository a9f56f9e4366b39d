[package]
name = "tracing_honeycomb"
version = "0.1.0"
edition = "2021"
publish = false

[dependencies]
libhoney-rust = "*"
serde_json = "*"
uuid = { version = "*", features = ["v4"] }
tracing = "*"
