[package]
name = "bbs_encoding"
version = "0.1.0"
edition = "2021"
publish = false

[dependencies]
bls12_381_plus = "=0.5.5"
