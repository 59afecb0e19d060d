[package]
name = "verifiable_encryption"
version = "0.1.0"
edition = "2021"
publish = false

[dependencies]
ff = "0.13"
group = "0.13"
pasta_curves = "0.5"
rand = "0.8"
halo2_proofs = "0.3"
halo2_gadgets = "0.5"
