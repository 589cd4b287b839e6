[package]
name = "tsukuyomidmx"
version = "0.1.0"
edition = "2021"
publish = false

[dependencies]
uuid = { version = "1", features = ["v4"] }
serde = { version = "1", features = ["derive"] }
serde_json = "1"
anyhow = "1"
thiserror = "*"
tokio = { version = "1", features = ["sync", "rt"] }
dirs = "*"
