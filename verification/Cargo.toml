[package]
name = "safe_network"
version = "0.1.0"
edition = "2021"
publish = false

[dependencies]
blsttc = "=8.0.2"
bls_dkg = "=0.9.2"
ed25519-dalek = "=3.0.0"
rand = "=0.8.8"
rand_core = { version = "=0.5.1", features = ["getrandom"] }
tiny-keccak = { version = "=2.0.2", features = ["sha3"] }
bincode = "=1.3.3"
xor_name = "=4.1.0"
