[package]
name = "scf_stability"
version = "0.1.0"
edition = "2021"
publish = false

[dependencies]
rest_tensors = "*"
itertools = "*"
