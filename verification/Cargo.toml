[package]
name = "saiga"
version = "0.1.0"
edition = "2021"
publish = false

[dependencies]
simdutf8 = "=0.1.5"
unicode-width = "=0.1.14"
nix = { version = "=0.29.0", features = ["term", "process", "fs"] }
winit = "0.30"
