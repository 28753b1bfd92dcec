[package]
name = "pirostats"
version = "0.1.0"
edition = "2021"
publish = false

[dependencies]
nix = { version = "=0.31.3", features = ["user", "fs"] }
serde_json = "=1.0.154"
toml = { version = "=1.1.8", features = ["preserve_order"] }
wait-timeout = "=0.2.1"
