[package]
name = "mediagrab"
version = "0.1.0"
edition = "2021"
publish = false

[dependencies]
dirs = "*"
tokio = { version = "*", features = ["full"] }
serde = { version = "*", features = ["derive"] }
serde_json = "*"
which = "*"
fs2 = "*"
chrono = "*"
