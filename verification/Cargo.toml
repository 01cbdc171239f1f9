[package]
name = "rehyke_core"
version = "0.2.0"
edition = "2021"
publish = false

[dependencies]
url = "=2.5.8"
percent-encoding = "=2.3.2"
regex = "=1.13.1"
quick-xml = "=0.37.5"
scraper = "=0.29.0"
rand = "=0.8.8"
serde = { version = "=1.0.229", features = ["derive"] }
serde_json = "=1.0.154"
chrono = { version = "=0.4.45", features = ["serde"] }
tokio = { version = "=1.54.1", features = ["full"] }
reqwest = { version = "=0.12.28", default-features = false, features = ["rustls-tls", "gzip", "brotli", "deflate", "zstd", "cookies"] }
tracing = "=0.1.44"
tracing-subscriber = { version = "=0.3.23", features = ["env-filter"] }
anyhow = "=1.0.104"
thiserror = "=1.0.69"
clap = { version = "=4.6.7", features = ["derive"] }
console = "=0.16.6"
indicatif = "=0.18.6"
futures = "=0.3.34"
dashmap = "=6.2.1"
ego-tree = "=0.11.1"
