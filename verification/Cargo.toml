[package]
name = "amx"
version = "0.1.0"
edition = "2021"
publish = false

[dependencies]
anyhow = "*"
nix = { version = "*", features = ["signal", "process", "fs", "user"] }
serde_json = "*"
