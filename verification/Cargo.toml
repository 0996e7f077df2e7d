[package]
name = "northstar"
version = "0.1.0"
edition = "2021"
publish = false

[dependencies]
semver = "1"
url = "2"
nix = { version = "*", features = ["mount", "fs", "user"] }
serde_yaml = "*"
serde = { version = "1", features = ["derive"] }
serde_json = "1"
tokio = { version = "1", features = ["full"] }
tokio-util = { version = "*", features = ["io", "codec"] }
futures = "*"
bytes = "1"
anyhow = "1"
thiserror = "*"
log = "*"
env_logger = "*"
chrono = "*"
structopt = "0.3"
async-std = { version = "1", features = ["attributes"] }
