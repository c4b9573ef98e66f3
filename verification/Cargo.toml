[package]
name = "tx_circuit"
version = "0.1.0"
edition = "2021"
publish = false

[dependencies]
ff = "=0.12.1"
halo2_proofs = "=0.1.0"
libsecp256k1 = "=0.7.2"
rlp = "=0.5.2"
sha3 = "=0.10.9"

[dev-dependencies]
ethers-core = { version = "=0.6.3", default-features = false }
ethers-signers = { version = "=0.6.2", default-features = false }
rand = "=0.8.8"
rand_chacha = "=0.3.1"
