[package]
name = "ftp_core"
version = "0.1.0"
edition = "2021"
publish = false

[dependencies]
bytes = "*"
futures = "*"
serde = { version = "*", features = ["derive"] }
time = "*"
tokio = { version = "*", features = ["full"] }
tokio-util = { version = "*", features = ["codec"] }
toml = "*"
