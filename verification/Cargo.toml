[package]
name = "ktest"
version = "0.1.0"
edition = "2021"
publish = false

[dependencies]
clap = { version = "=4.6.7", features = ["cargo", "string"] }
config = { version = "=0.15.27", default-features = false, features = ["toml"] }
jobserver = "=0.1.35"
nix = { version = "=0.31.3", features = ["feature"] }
procfs = "=0.18.0"
serde = { version = "=1.0.229", features = ["derive"] }
serde_derive = "=1.0.229"
tracing = "=0.1.44"
tracing-subscriber = { version = "=0.3.23", features = ["env-filter"] }
