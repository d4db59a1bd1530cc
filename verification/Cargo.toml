[package]
name = "podcast_feed"
version = "0.1.0"
edition = "2021"
publish = false

[dependencies]
anyhow = "1"
axum = "*"
reqwest = "*"
shuttle-axum = "*"
shuttle-runtime = "*"
tokio = { version = "1", features = ["macros", "rt-multi-thread"] }
xml-rs = "0.8"
