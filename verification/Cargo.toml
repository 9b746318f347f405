[package]
name = "vale_ls"
version = "0.1.0"
edition = "2021"
publish = false

[dependencies]
semver = "1"
yaml-rust = "0.4"
url = "2"
ropey = "1"
serde = { version = "1", features = ["derive"] }
serde_json = "1"
tower-lsp = "0.20"
tokio = { version = "1", features = ["full"] }
dashmap = "5"
clap = { version = "4", features = ["derive"] }
env_logger = "*"
flate2 = "1"
tar = "0.4"
tempfile = "3"
which = "*"
zip-extract = "*"
reqwest = { version = "0.11", default-features = false, features = ["blocking", "json", "rustls-tls"] }
open = "*"
thiserror = "1"
