[package]
name = "crev"
version = "0.1.0"
edition = "2021"
publish = false

[dependencies]
blake2 = "0.10"
base64 = "0.13"
ed25519-dalek = "1"
rand = "0.7"
semver = { version = "1", features = ["serde"] }
chrono = "0.4"
serde = { version = "1", features = ["derive"] }
serde_yaml = "0.9"
serde_json = "1"
thiserror = "1"
anyhow = "1"
rprompt = "2"
shell-escape = "0.1"
walkdir = "2"
tempfile = "3"
structopt = "0.3"
atty = "0.2"
