[package]
name = "update_store_dump"
version = "0.1.0"
edition = "2021"
publish = false

[dependencies]
anyhow = "1"
heed = "0.10"
serde = { version = "1", features = ["derive"] }
serde_json = "1"
tokio = { version = "1", features = ["rt"] }
uuid = { version = "0.8", features = ["serde"] }
