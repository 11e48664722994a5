[package]
name = "chat_adapter"
version = "0.1.0"
edition = "2021"
publish = false

[dependencies]
anyhow = "1"
async-trait = "0.1"
serde = { version = "1", features = ["derive"] }
tokio = { version = "1", default-features = false, features = ["rt", "sync", "time"] }
tracing = { version = "0.1", default-features = false, features = ["std", "attributes"] }
