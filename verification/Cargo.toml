[package]
name = "mcrs"
version = "0.1.0"
edition = "2021"
publish = false

[dependencies]
anyhow = "1"
crossbeam = "0.8"
log = "0.4"
serde = { version = "1", features = ["derive"] }
serde_json = "1"
simple_logger = "*"
uuid = { version = "1", features = ["v4"] }
