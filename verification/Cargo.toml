[package]
name = "sparse_vector"
version = "0.1.0"
edition = "2021"
publish = false

[dependencies]
pstd = "*"
only_one = "*"
nameof = "*"

[dev-dependencies]
rand = "0.9"
rand_pcg = "0.9"
