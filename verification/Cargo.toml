[package]
name = "chartodo"
version = "0.1.0"
edition = "2021"
publish = false

[dependencies]
anyhow = "1"
chrono = "0.4"
comfy-table = "7"
dirs = "5"
serde = { version = "1", features = ["derive"] }
serde_json = "1"
