[package]
name = "granite_cli"
version = "0.1.0"
edition = "2021"
publish = false

[dependencies]
anyhow = "=1.0.104"
serde = { version = "=1.0.229", features = ["derive"] }
serde_json = "=1.0.154"
serde_yaml = "=0.9.34"
clap = { version = "=4.6.7", features = ["derive"] }
dirs = "=7.0.0"
base64 = "=0.23.1"
url = "=2.5.8"
reqwest = { version = "=0.13.5", default-features = false, features = ["blocking", "native-tls"] }
