[package]
name = "provekit_hash"
version = "0.1.0"
edition = "2021"
publish = false

[dependencies]
ark-bn254 = "=0.6.0"
ark-crypto-primitives = { version = "=0.6.0", features = ["crh", "merkle_tree"] }
ark-ff = "=0.6.0"
ark-serialize = "=0.6.0"
blake3 = "=1.8.7"
rand = "=0.8.8"
serde = { version = "=1.0.229", features = ["derive"] }
sha2 = "=0.10.9"
spongefish = { version = "=0.7.4", features = ["ark-ff"] }
spongefish-pow = "=0.7.4"
zeroize = "=1.9.1"
