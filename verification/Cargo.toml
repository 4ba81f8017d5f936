[package]
name = "vfs_nodes"
version = "0.1.0"
edition = "2021"
publish = false

[dependencies]
url = "=2.5.8"
dashmap = "=5.5.3"
base64 = "=0.13.1"
percent-encoding = "=2.3.2"
futures-lite = "=1.13.0"
rust-embed = "=5.9.0"
tokio = { version = "=1.54.1", features = ["fs", "io-util"] }
