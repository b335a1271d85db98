[package]
name = "zero_copy_read"
version = "0.1.0"
edition = "2021"
publish = false

[dependencies]
pinocchio = "*"
pinocchio-system = "*"
solana-program-log = "*"
