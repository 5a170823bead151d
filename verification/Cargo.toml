[package]
name = "eth_raw_tx"
version = "0.1.0"
edition = "2021"
publish = false

[dependencies]
ethereum-types = "0.9"
rlp = "0.4"
tiny-keccak = "1.5"
serde = { version = "1", features = ["derive"] }
