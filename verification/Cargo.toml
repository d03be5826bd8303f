[package]
name = "erbium_blockchain"
version = "0.1.0"
edition = "2021"
publish = false

[dependencies]
sha2 = "=0.10.9"
sha3 = "=0.10.9"
blake3 = "=1.8.7"
hex = "=0.4.3"
rand = "=0.8.8"
chrono = "=0.4.45"
serde = { version = "=1.0.229", features = ["derive"] }
serde_json = "=1.0.154"
bincode = "=1.3.3"
log = "=0.4.35"
tokio = { version = "=1.54.1", features = ["full"] }
clap = { version = "=4.6.7", features = ["derive"] }
toml = "=0.8.23"
futures = "=0.3.34"
async-trait = "=0.1.92"
curve25519-dalek-ng = "=4.1.1"
bulletproofs = "=4.0.0"
merlin = "=3.0.0"
local-ip-address = "0.6"
