[package]
name = "stahl_core"
version = "0.1.0"
edition = "2021"
publish = false

[dependencies]
httparse = "=1.10.1"
num = "0.4"
serde = { version = "=1.0.229", features = ["derive"] }
serde_json = "=1.0.154"
