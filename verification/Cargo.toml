[package]
name = "proxy_rs"
version = "0.1.0"
edition = "2021"
publish = false

[dependencies]
url = "*"
tokio = { version = "*", features = ["rt-multi-thread", "net", "io-util", "time", "sync", "macros", "signal"] }
hickory-resolver = "*"
clap = { version = "*", features = ["derive"] }
serde = { version = "*", features = ["derive"] }
serde_json = "*"
toml = "*"
log = "*"
