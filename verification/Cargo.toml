[package]
name = "pipewire_web_remote"
version = "0.1.0"
edition = "2021"
publish = false

[dependencies]
anyhow = "*"
axum = { version = "*", features = ["ws"] }
clap = { version = "*", features = ["derive"] }
crossbeam-channel = "*"
dirs = "*"
futures = "*"
mime_guess = "*"
parking_lot = "*"
rust-embed = "*"
serde = { version = "*", features = ["derive"] }
serde_json = "*"
tokio = { version = "*", features = ["full"] }
tracing = "*"
tracing-subscriber = { version = "*", features = ["env-filter"] }
