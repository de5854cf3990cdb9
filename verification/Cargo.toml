[package]
name = "relations"
version = "0.1.0"
edition = "2021"
publish = false

[dependencies]
ark-ec = "=0.3.0"
ark-ff = "=0.3.0"
ark-std = "=0.3.0"
ark-pallas = "=0.3.0"
ark-vesta = "=0.3.0"
rust-crypto = "=0.2.36"
rand = "=0.8.8"
