[package]
name = "cargo-quad-apk"
version = "0.1.0"
edition = "2021"
publish = false

[dependencies]
anyhow = "=1.0.104"
clap = "=4.6.7"
dirs = "7"
glob = "=0.3.4"
multimap = { version = "=0.10.1", default-features = false }
serde = { version = "=1.0.229", features = ["derive"] }
toml = "=1.1.8"
