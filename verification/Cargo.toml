[package]
name = "hooray"
version = "0.1.0"
edition = "2021"
publish = false

[dependencies]
rand = "0.8"
rand_chacha = "0.3"
rayon = "1"
png = "0.17"
indicatif = "0.17"
