[package]
name = "veecle_telemetry"
version = "0.1.0"
edition = "2021"
publish = false

[dependencies]
anyhow = "1"
hex = "0.4"
indexmap = "2"
rand = "0.9"
serde = { version = "1", features = ["derive"] }
serde_json = "1"
