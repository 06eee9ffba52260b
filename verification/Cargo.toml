[package]
name = "kernel_core"
version = "0.1.0"
edition = "2021"
publish = false

[dependencies]
embassy-net = { version = "*", default-features = false, features = ["tcp", "proto-ipv4", "medium-ethernet"] }
embassy-time = "*"
spinning_top = "*"
