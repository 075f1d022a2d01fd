[package]
name = "bore"
version = "0.1.0"
edition = "2021"
publish = false

[dependencies]
anyhow = "1"
dashmap = "5"
ed25519-dalek = { version = "2", features = ["pkcs8", "rand_core"] }
fastrand = "2"
hex = "0.4"
rand = "0.8"
serde = { version = "1", features = ["derive"] }
serde_json = "1"
tokio = { version = "1", features = ["net", "io-util", "time", "rt", "macros"] }
tokio-util = { version = "0.7", features = ["codec"] }
tracing = "0.1"
