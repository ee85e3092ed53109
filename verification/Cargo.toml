[package]
name = "frostlab"
version = "0.1.0"
edition = "2021"
publish = false

[dependencies]
k256 = "=0.13.4"
frost-secp256k1-evm = "=2.2.0"
rand = "=0.8.8"
tiny-keccak = { version = "=2.0.2", features = ["keccak"] }
hex = "=0.4.3"
serde = { version = "1", features = ["derive"] }
serde_json = "1"

[dev-dependencies]
sha3 = "=0.10.9"
