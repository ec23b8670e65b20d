[package]
name = "lnpbp"
version = "0.1.0"
edition = "2021"
publish = false

[dependencies]
bitcoin = "=0.32.102"
rand = "=0.8.8"
