[package]
name = "battlecode_engine"
version = "0.1.0"
edition = "2021"
publish = false

[dependencies]
fnv = "1"
rand = "0.4"
smallvec = "0.6"
serde = { version = "1", features = ["derive"] }
serde_json = "1"
failure = "0.1"
