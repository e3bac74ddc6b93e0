[package]
name = "chain_pipe"
version = "0.1.0"
edition = "2021"
publish = false

[dependencies]
chrono = "*"
regex = "*"
serde = { version = "*", features = ["derive"] }
serde_json = "*"
