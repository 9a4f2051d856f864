[package]
name = "tuxedo"
version = "0.1.0"
edition = "2021"
publish = false

[dependencies]
futures = "0.3"
futures-lite = "1"
glob = "0.3"
nix = "0.26"
once_cell = "1"
serde = { version = "1", features = ["derive"] }
serde_json = "1"
signal-hook = "0.3"
signal-hook-tokio = { version = "0.3", features = ["futures-v0_3"] }
sudo = "0.6"
thiserror = "1"
tokio = { version = "1", features = ["full"] }
tokio-uring = "0.4"
toml = "0.7"
tracing = "0.1"
tracing-subscriber = { version = "0.3", features = ["env-filter"] }
zbus = "3"
