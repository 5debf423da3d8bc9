[package]
name = "sfs_core"
version = "0.1.0"
edition = "2021"
publish = false

[dependencies]
orion = "=0.17.15"
serde = { version = "=1.0.229", features = ["derive"] }
serde_json = "=1.0.151"
tokio = { version = "=1.53.2", features = ["rt-multi-thread", "macros", "fs", "io-std", "io-util", "sync"] }
reqwest = { version = "=0.13.5", default-features = false, features = ["json", "multipart", "stream"] }
clap = { version = "=4.6.7", features = ["derive"] }
anyhow = "=1.0.104"
chrono = { version = "=0.4.45", features = ["serde"] }
url = "=2.5.8"
toml = "=1.1.7"
futures-util = "=0.3.34"
rand = "=0.8.8"
