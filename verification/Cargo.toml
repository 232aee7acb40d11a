[package]
name = "thunder_mixer"
version = "0.1.0"
edition = "2021"
publish = false

[dependencies]
dashmap = "6"
serde = { version = "1", features = ["derive"] }
tokio = { version = "1", features = ["rt", "time", "sync"] }
log = "0.4"
