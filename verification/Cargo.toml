[package]
name = "battlestar"
version = "0.1.0"
edition = "2021"
publish = false

[dependencies]
serde = { version = "1", features = ["derive"] }
serde_json = "1"
rand = "*"
tokio = { version = "1", features = ["macros", "rt-multi-thread", "sync", "time", "net"] }
axum = { version = "*", features = ["ws"] }
