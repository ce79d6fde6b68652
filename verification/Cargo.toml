[package]
name = "chain_index"
version = "0.1.0"
edition = "2021"
publish = false

[dependencies]
sled = "*"
serde = { version = "*", features = ["derive"] }
serde_json = "*"
tokio = { version = "*", features = ["full"] }
tokio-tungstenite = "*"
futures = "*"
clap = { version = "*", features = ["derive"] }
log = "*"
