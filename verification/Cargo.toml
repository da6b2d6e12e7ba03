[package]
name = "webdown"
version = "0.1.0"
edition = "2021"
publish = false

[dependencies]
url = "=2.5.8"
serde = { version = "=1.0.229", features = ["derive"] }
serde_json = { version = "=1.0.154", features = ["float_roundtrip"] }
serde_yaml = "=0.9.34"
scraper = "=0.29.0"
reqwest = { version = "=0.12.28", default-features = false, features = ["rustls-tls"] }
tokio = { version = "=1.54.1", features = ["rt-multi-thread"] }
clap = { version = "=4.6.7", features = ["derive"] }
thiserror = "=2.0.21"
wasmtime = "=48.0.8"
wasmtime-wasi = "=48.0.8"
