[package]
name = "zptess"
version = "0.1.0"
edition = "2021"
publish = false

[dependencies]
anyhow = "1"
bytes = "1"
chrono = "0.4"
clap = { version = "4", features = ["derive"] }
dotenvy = "*"
futures = "0.3"
reqwest = { version = "0.12", default-features = false }
rusqlite = { version = "*", features = ["bundled"] }
serde = { version = "1", features = ["derive"] }
serde_json = "1"
tokio = { version = "1", features = ["io-util", "macros", "net", "rt", "signal", "sync", "time"] }
tokio-serial = "*"
tokio-util = { version = "0.7", features = ["codec"] }
tracing = "0.1"
tracing-appender = "*"
tracing-subscriber = "0.3"
