[package]
name = "ytdl_mini"
version = "0.1.0"
edition = "2021"
publish = false

[dependencies]
url = "*"
serde_json = "*"
chrono = "*"
serde = { version = "*", features = ["derive"] }
tokio = { version = "*", features = ["process", "rt-multi-thread", "macros", "sync", "time"] }
which = "*"
dirs = "*"
anyhow = "*"
