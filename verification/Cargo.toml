[package]
name = "kotoba"
version = "0.1.0"
edition = "2021"
publish = false

[dependencies]
anyhow = "=1.0.104"
clap = { version = "=4.6.7", features = ["derive"] }
rusqlite = { version = "=0.31.0", features = ["bundled"] }
serde = { version = "=1.0.229", features = ["derive"] }
serde_json = "=1.0.154"
toml = "=0.8.23"
dirs = "=5.0.1"
quick-xml = "=0.31.0"
flate2 = "=1.1.10"
scraper = { version = "=0.19.1", features = ["deterministic"] }
zip = { version = "=2.6.1", default-features = false, features = ["deflate"] }
chrono = "=0.4.45"
indicatif = "=0.17.11"
reqwest = { version = "=0.12.28", default-features = false, features = ["blocking", "rustls-tls", "json"] }
regex = "=1.13.1"
sha2 = "=0.10.9"
lindera = "=6.2.0"
crossterm = "=0.27.0"
arboard = { version = "=3.7.0", default-features = false }
