[package]
name = "eth2_network"
version = "0.1.0"
edition = "2021"
publish = false

[dependencies]
lru = "*"
tokio = { version = "*", default-features = false, features = ["sync", "rt"] }
