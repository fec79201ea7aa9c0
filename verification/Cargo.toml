[package]
name = "beamcli"
version = "0.2.8"
edition = "2021"
publish = false

[dependencies]
anyhow = "1"
clap = { version = "4", features = ["derive"] }
clap_complete = "4"
clearscreen = "*"
colored = "2"
dialoguer = { version = "0.11", features = ["fuzzy-select"] }
home = "0.5"
indicatif = "0.17"
regex = "1"
reqwest = { version = "0.12", default-features = false, features = ["rustls-tls"] }
semver = "1"
serde = { version = "1", features = ["derive"] }
serde_json = "1"
tokio = { version = "1", features = ["rt-multi-thread", "macros"] }
toml = "0.8"
whoami = "1"
