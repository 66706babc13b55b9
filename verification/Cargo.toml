[package]
name = "butterfly_extractor"
version = "0.1.0"
edition = "2021"
publish = false

[dependencies]
anyhow = "=1.0.104"
clap = "=2.34.0"
csv = "=1.4.0"
env_logger = "=0.11.11"
hex = "=0.4.3"
kanaria = "=0.1.1"
log = "=0.4.34"
reqwest = { version = "=0.12.28", default-features = false, features = ["blocking", "charset", "json"] }
scoped_threadpool = "=0.1.9"
scraper = "=0.29.0"
serde = { version = "=1.0.229", features = ["derive"] }
serde_json = { version = "=1.0.154", features = ["float_roundtrip"] }
thiserror = "=1.0.69"
unicode-jp = "=0.4.0"
