[package]
name = "pedersen_vector_proofs"
version = "0.1.0"
edition = "2021"
publish = false

[dependencies]
curve25519-dalek = { version = "4.1", features = ["rand_core"] }
rand = "0.8"
