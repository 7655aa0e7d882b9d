[package]
name = "simple_blockchain"
version = "0.1.0"
edition = "2021"
publish = false

[dependencies]
chrono = { version = "0.4", features = ["serde"] }
colored = "2"
serde = { version = "1", features = ["derive"] }
serde_json = "1"
sha2 = "0.10"
