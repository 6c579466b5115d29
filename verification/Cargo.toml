[package]
name = "plonky2_circom_verifier"
version = "0.1.0"
edition = "2021"
publish = false

[dependencies]
anyhow = "=1.0.104"
ff_ce = "=0.11.0"
log = "=0.4.34"
num = "=0.4.3"
plonky2 = "=0.1.3"
plonky2_util = "=1.0.0"
poseidon-rs = "=0.0.10"
serde = { version = "=1.0.229", features = ["derive"] }
serde_json = "=1.0.154"
