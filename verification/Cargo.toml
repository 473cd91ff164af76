[package]
name = "pallet-proxy"
version = "0.1.0"
edition = "2021"
publish = false

[dependencies]
bounded-collections = "*"
frame-support = "*"
frame-system = "*"
scale-info = "*"
sp-runtime = "*"
