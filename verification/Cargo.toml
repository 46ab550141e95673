[package]
name = "libopenai"
version = "0.1.0"
edition = "2021"
publish = false

[dependencies]
serde_json = "*"
serde = { version = "*", features = ["derive"] }
reqwest = { version = "*", default-features = false, features = ["json", "stream"] }
tokio = { version = "*", features = ["full"] }
tokio-util = { version = "*", features = ["io"] }
futures = "*"
bytes = "*"
pin-project-lite = "*"
