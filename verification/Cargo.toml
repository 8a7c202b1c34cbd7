[package]
name = "midnight-node-updater"
version = "0.1.0"
edition = "2021"
publish = false

[dependencies]
anyhow = "1"
clap = { version = "4", features = ["derive", "env"] }
flate2 = "1"
hex = "0.4"
humantime = "2"
nix = { version = "*", features = ["signal", "process"] }
reqwest = { version = "0.12", default-features = false, features = ["json", "rustls-tls"] }
serde = { version = "1", features = ["derive"] }
serde_json = "1"
sha2 = "*"
tar = "0.4"
tempfile = "3"
tokio = { version = "1", features = ["rt", "macros", "process", "signal", "time", "fs", "io-util"] }
toml = "*"
tracing = "0.1"
tracing-subscriber = { version = "0.3", features = ["env-filter"] }
url = "2"
zip = { version = "*", default-features = false, features = ["deflate"] }
