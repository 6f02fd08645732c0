[package]
name = "job_feed"
version = "0.1.0"
edition = "2021"
publish = false

[dependencies]
rss = "=2.1.2"
scraper = { version = "=0.19.1", features = ["deterministic"] }
chrono = "=0.4.45"
serde = { version = "=1.0.229", features = ["derive"] }
bytes = "=1.12.1"
reqwest = { version = "=0.12.28", default-features = false }
