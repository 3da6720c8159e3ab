[package]
name = "mayab_arbitrage"
version = "0.1.0"
edition = "2021"
publish = false

[dependencies]
rust_decimal = "1"
crc32fast = "1"
hex = "0.4"
ed25519-dalek = "2"
serde = { version = "1", features = ["derive"] }
serde_json = "1"
chrono = "0.4"

[dev-dependencies]
ed25519-dalek = "2"
