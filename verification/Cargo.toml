[package]
name = "crossgate"
version = "0.1.0"
edition = "2021"
publish = false

[dependencies]
regex = "*"
bson = "*"
serde = { version = "*", features = ["derive"] }
serde_json = "*"
mongodb = "*"
tokio = { version = "*", features = ["full"] }
futures = "*"
tokio-context = "*"
anyhow = "*"
