[package]
name = "quantum_cryptography"
version = "0.1.0"
edition = "2021"
publish = false

[dependencies]
bitvec = "1"
itertools = "0.13"
rand = "0.8"
rand_distr = "0.4"
num-complex = "0.4"
curve25519-dalek = "4"
merlin = "3"
sha3 = "0.10"
blake3 = "1"
