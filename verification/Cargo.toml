[package]
name = "rshm"
version = "0.1.0"
edition = "2021"
publish = false

[dependencies]
nix = "=0.25.1"
linux-futex = "=1.0.0"
memmap2 = "=0.9.11"
