[package]
name = "w3d_relay"
version = "0.1.0"
edition = "2021"
publish = false

[dependencies]
serde_json = "*"
uuid = "*"
serde = { version = "*", features = ["derive"] }
tokio = { version = "*", features = ["full"] }
anyhow = "*"
