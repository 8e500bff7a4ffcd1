[package]
name = "graft"
version = "0.1.0"
edition = "2021"
publish = false

[dependencies]
base64 = "0.22"
clap = { version = "4", features = ["derive"] }
console = "0.15"
dirs = "5"
flate2 = "1"
hex = "0.4"
indexmap = { version = "2", features = ["serde"] }
miette = { version = "7", features = ["fancy"] }
reqwest = { version = "0.12", default-features = false, features = ["blocking", "json", "rustls-tls"] }
semver = "1"
serde = { version = "1", features = ["derive"] }
serde_json = "1"
sha2 = "0.10"
tar = "0.4"
tempfile = "3"
thiserror = "2"
toml = "0.8"
