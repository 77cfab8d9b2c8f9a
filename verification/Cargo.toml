[package]
name = "rpm"
version = "0.1.0"
edition = "2021"
publish = false

[dependencies]
anyhow = "1"
async-recursion = "1"
clap = { version = "4", features = ["derive"] }
dashmap = "6"
flate2 = "1"
fs_extra = "1"
futures = "0.3"
glob = "0.3"
indicatif = "0.17"
pathdiff = "0.2"
reqwest = { version = "0.12", default-features = false, features = ["json", "rustls-tls"] }
semver = "1"
serde = { version = "1", features = ["derive"] }
serde_json = "1"
serde_yaml = "0.9"
tar = "0.4"
tokio = { version = "1", features = ["full"] }
uuid = { version = "1", features = ["v4"] }
