[package]
name = "nix_snow"
version = "0.1.0"
edition = "2021"
publish = false

[dependencies]
json = "0.12"
clap = { version = "4", features = ["derive"] }
colorful = "0.2"
config = { version = "0.13", default-features = false, features = ["toml"] }
spinoff = "0.7"
temp-file = "0.1"
