[package]
name = "avarus"
version = "0.1.0"
edition = "2021"
publish = false

[dependencies]
pathfinding = "4"
feistel_rs = "*"
serde = { version = "1", features = ["derive"] }
tokio = { version = "1", features = ["full"] }
axum = "*"
ron = "*"
bincode = "1"
anyhow = "1"
rustmatica = "*"
