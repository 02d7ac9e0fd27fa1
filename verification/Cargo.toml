[package]
name = "depdiff"
version = "0.1.0"
edition = "2021"
publish = false

[dependencies]
anyhow = "1"
clap = { version = "4.5", features = ["derive"] }
clap-verbosity-flag = "3.0"
config = { version = "0.14", default-features = false, features = ["toml"] }
env_logger = "0.11"
git2 = { version = "0.19", default-features = false }
log = "0.4"
semver = "1"
serde = { version = "1.0", features = ["derive"] }
toml = "0.8"
