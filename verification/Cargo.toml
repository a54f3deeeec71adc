[package]
name = "diskchart"
version = "0.1.0"
edition = "2021"
publish = false

[dependencies]
colored = "*"
nix = { version = "*", features = ["fs"] }
terminal_size = "*"
