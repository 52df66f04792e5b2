[package]
name = "pi_grok"
version = "0.1.0"
edition = "2021"
publish = false

[dependencies]
semver = "=1.0.28"
serde_json = "=1.0.154"
toml = "=1.1.8"
dirs = "=7.0.0"
anyhow = "=1.0.104"
libc = "=0.2.191"
