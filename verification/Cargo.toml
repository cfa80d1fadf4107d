[package]
name = "tg-dl-bot"
version = "0.1.0"
edition = "2021"
publish = false
rust-version = "1.95"

[dependencies]
dashmap = "=6.2.1"
linkify = "=0.11.0"
serde = { version = "=1.0.229", features = ["derive"] }
serde_json = "=1.0.154"
teloxide = { version = "=0.17.0", features = ["macros"] }
takecell = "=0.1.1"
tokio = { version = "=1.54.1", features = ["rt-multi-thread", "macros", "process", "fs", "sync"] }
tracing = "=0.1.44"
tracing-subscriber = { version = "=0.3.23", features = ["env-filter"] }
dotenvy = "=0.15.7"
tempfile = "=3.27.0"
futures = "=0.3.34"
thiserror = "=2.0.21"
rusty_ytdl = "=0.7.4"

[dev-dependencies]
regex = "=1.13.1"
