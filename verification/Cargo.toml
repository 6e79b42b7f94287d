[package]
name = "vectorized_fields"
version = "0.1.0"
edition = "2021"
publish = false

[dependencies]
ark-bn254 = "0.4"
ark-ff = "0.4"
ark-std = "0.4"
rand = "0.8"
rand_chacha = "0.3"
rayon = "1"
