[package]
name = "buzzer_core"
version = "0.1.0"
edition = "2021"
publish = false

[dependencies]
tokio = { version = "1", features = ["rt-multi-thread", "net", "sync", "io-util", "macros", "time"] }
serde = { version = "1", features = ["derive"] }
serde_json = "1"
axum = { version = "*", features = ["ws"] }
