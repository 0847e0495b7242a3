[package]
name = "tinyquant"
version = "0.1.0"
edition = "2021"
publish = false

[dependencies]
regex = "1"
memmap2 = "0.9"
thiserror = "1"

[dev-dependencies]
rand_chacha = "0.3"
