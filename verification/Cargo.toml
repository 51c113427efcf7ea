[package]
name = "rustflix"
version = "0.1.0"
edition = "2021"
publish = false

[dependencies]
html-escape = "0.2"
scraper = "*"
serde = { version = "1", features = ["derive"] }
serde_json = "1"
rusqlite = "*"
reqwest = "*"
tokio = { version = "1", features = ["rt-multi-thread", "macros", "fs", "io-util", "sync", "net"] }
dirs = "5"
image = { version = "0.25", default-features = false, features = ["jpeg", "png"] }
base64 = "0.22"
chrono = "0.4"
axum = "0.6"
