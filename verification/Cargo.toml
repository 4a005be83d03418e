[package]
name = "agent_control"
version = "0.1.0"
edition = "2021"
publish = false

[dependencies]
serde = { version = "1", features = ["derive"] }
serde_json = "1"
urlencoding = "2"
rand = "0.8"
tokio = { version = "1", features = ["net", "io-util", "sync", "time", "macros", "rt"] }
tauri = { version = "2", default-features = false }
