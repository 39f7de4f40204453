[package]
name = "kokoro_reader"
version = "0.1.0"
edition = "2021"
publish = false

[dependencies]
base64 = "=0.22.1"
crossbeam-channel = "=0.5.17"
dirs = "=5.0.1"
dotenvy = "0.15"
epub = "2"
futures-util = "0.3"
regex = "=1.13.1"
reqwest = { version = "0.12", default-features = false, features = ["json", "rustls-tls"] }
rodio = { version = "=0.20.1", default-features = false, features = ["wav"] }
serde = { version = "=1.0.229", features = ["derive"] }
serde_json = "=1.0.154"
thiserror = "=1.0.69"
tokio = { version = "1", features = ["rt-multi-thread", "sync", "macros"] }
ureq = "3"
urlencoding = "=2.1.3"
