[package]
name = "deet"
version = "0.1.0"
edition = "2021"
publish = false

[dependencies]
nix = "=0.17.0"
rand = "=0.7.3"
rustyline = "=9.1.2"
