[package]
name = "msl_engine"
version = "0.1.0"
edition = "2021"
publish = false

[dependencies]
anyhow = "1"
clap = { version = "4", features = ["derive"] }
reqwest = { version = "0.11", default-features = false }
scraper = "0.17"
serde = { version = "1", features = ["derive"] }
thiserror = "1"
tokio = { version = "1", features = ["macros", "rt-multi-thread", "time", "fs", "io-util"] }
tracing = "0.1"
tracing-subscriber = "0.3"
url = "2"
