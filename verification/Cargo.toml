[package]
name = "doh_proxy"
version = "0.1.0"
edition = "2021"
publish = false

[dependencies]
trust-dns-proto = "*"
tokio = { version = "1", features = ["rt-multi-thread", "net", "sync", "time", "io-util", "fs", "macros"] }
reqwest = { version = "*", default-features = false, features = ["rustls-tls"] }
serde = { version = "1", features = ["derive"] }
serde_json = "1"
log = "*"
env_logger = "*"
