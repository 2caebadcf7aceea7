[package]
name = "dotman"
version = "0.1.0"
edition = "2021"
publish = false

[dependencies]
sha2 = "=0.11.1"
unicode-width = "=0.2.3"
serde = { version = "=1.0.229", features = ["derive"] }
serde_json = "=1.0.154"
serde_yaml = "=0.9.34"
toml = "=1.1.8"
clap = { version = "=4.6.7", features = ["derive"] }
dirs = "=7.0.0"
ulid = "=3.0.0"
time = { version = "=0.3.55", features = ["formatting", "local-offset"] }
anyhow = "=1.0.104"
semver = "1"
regex = "1"
ureq = "2"
flate2 = "1"
tar = "0.4"
