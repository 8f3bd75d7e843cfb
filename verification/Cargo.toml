[package]
name = "tx_envelope"
version = "0.1.0"
edition = "2021"
publish = false

[dependencies]
rlp = { version = "0.5", default-features = false }
tiny-keccak = { version = "2.0", default-features = false, features = ["keccak"] }
serde = { version = "1", features = ["derive"] }
serde_json = "1"
