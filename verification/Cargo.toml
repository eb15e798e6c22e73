[package]
name = "privacy_circuits"
version = "0.1.0"
edition = "2021"
publish = false

[dependencies]
ark-bn254 = "=0.4.0"
ark-crypto-primitives = { version = "=0.4.0", features = ["sponge", "r1cs"] }
ark-ff = "=0.4.2"
ark-groth16 = "=0.4.0"
ark-r1cs-std = "=0.4.0"
ark-relations = "=0.4.0"
ark-serialize = "=0.4.2"
ark-std = { version = "=0.4.0", features = ["getrandom"] }
pyo3 = "=0.30.1"

[dev-dependencies]
bincode = "=1.3.3"
serde_bytes = "=0.11.19"
