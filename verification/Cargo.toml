[package]
name = "mirage-engine"
version = "0.1.0"
edition = "2021"
publish = false

[dependencies]
smoltcp = "0.12"
serde = { version = "1", features = ["derive"] }
