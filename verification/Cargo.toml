[package]
name = "mujina_miner"
version = "0.1.0"
edition = "2021"
publish = false

[dependencies]
bitcoin = "0.32"
tokio = { version = "1", features = ["io-util", "time", "sync"] }
serde = { version = "1", features = ["derive"] }
thiserror = "2"
hex = "0.4"
anyhow = "1"
async-trait = "0.1"
