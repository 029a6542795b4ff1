[package]
name = "liscov_core"
version = "0.1.0"
edition = "2021"
publish = false

[dependencies]
chrono = "=0.4.45"
regex = "=1.13.1"
urlencoding = "=2.1.3"
serde = { version = "=1.0.229", features = ["derive"] }
serde_json = "=1.0.154"
rand = "=0.8.8"
tracing = "=0.1.44"
uuid = { version = "=1.29.0", features = ["v4"] }
glob = "=0.3.4"
directories = "=5.0.1"
toml = "0.8"
