[package]
name = "cosmox-plugin-anime"
version = "0.1.0"
edition = "2021"
publish = false

[dependencies]
lazy-regex = "=3.6.2"
log = "=0.4.35"
serde = { version = "=1.0.229", features = ["derive"] }
serde_json = "=1.0.154"
