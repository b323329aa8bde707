[package]
name = "mpc_prover"
version = "0.1.0"
edition = "2021"
publish = false

[dependencies]
ark-bn254 = "=0.5.0"
ark-circom = { version = "=0.5.0", default-features = false }
ark-crypto-primitives = "=0.5.0"
ark-ec = "=0.5.0"
ark-ff = "=0.5.0"
ark-groth16 = "=0.5.0"
ark-poly = "=0.5.0"
ark-relations = "=0.5.1"
ark-serialize = "=0.5.0"
ark-std = "=0.5.0"
axum = { version = "=0.7.9", default-features = false, features = ["http1", "multipart", "tokio"] }
log = "=0.4.34"
num-bigint = "=0.4.8"
serde = { version = "=1.0.229", features = ["derive"] }
# arbitrary_precision keeps integers above 64 bits as they were written
serde_json = { version = "=1.0.154", features = ["arbitrary_precision"] }
tokio = { version = "=1.54.1", features = ["rt-multi-thread", "fs", "io-util", "net"] }
# wasmer and wasmer-wasix are named for their `sys` feature alone: ark-circom
# leaves the choice of engine to its user and does not build without one
wasmer = { version = "=4.4.0", default-features = false, features = ["sys"] }
wasmer-wasix = { version = "=0.28.0", default-features = false, features = ["sys"] }
