[package]
name = "ordo"
version = "0.1.0"
edition = "2021"
publish = false

[dependencies]
semver = "=1.0.28"
sha2 = "=0.10.9"
serde = { version = "=1.0.229", features = ["derive"] }
serde_json = "=1.0.154"
toml = "=0.8.23"
toml_edit = "=0.22.27"
clap = { version = "=4.6.7", features = ["derive"] }
glob = "=0.3.4"
dirs = "=5.0.1"
pubgrub = "=0.3.0"

[dev-dependencies]
tempfile = "=3.27.0"
