[package]
name = "kvstore"
version = "0.1.0"
edition = "2021"
publish = false

[dependencies]
anyhow = "*"
bcrypt = "*"
chrono = "*"
serde = { version = "*", features = ["derive"] }
serde_json = "*"
tokio = { version = "*", features = ["full"] }
