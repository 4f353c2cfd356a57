[package]
name = "codecrafters_bittorrent"
version = "0.1.0"
edition = "2021"
publish = false

[dependencies]
anyhow = "1"
hex = "0.4"
reqwest = { version = "0.12", default-features = false, features = ["blocking"] }
serde_json = "1"
sha1 = "0.10"

[dev-dependencies]
serde_bencode = "0.2"
