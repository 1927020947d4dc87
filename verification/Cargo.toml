[package]
name = "mmdb"
version = "0.1.0"
edition = "2021"
publish = false

[dependencies]
blake3 = "1"
fjall = "2"
parking_lot = "0.12"
serde = { version = "1", features = ["derive"] }
serde_json = "1"
ulid = { version = "1", features = ["serde"] }
