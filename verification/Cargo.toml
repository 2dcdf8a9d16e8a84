[package]
name = "bcdn"
version = "0.1.0"
edition = "2021"
publish = false

[dependencies]
axum = "=0.6.20"
blake3 = { version = "=1.8.7", features = ["pure"] }
clap = "=4.6.7"
futures = "=0.3.34"
futures-util = "=0.3.34"
globset = "=0.4.20"
hex = "=0.4.3"
httpdate = "=1.0.3"
hyper = "=0.14.32"
log = "=0.4.34"
pretty_env_logger = "=0.5.0"
rand = "=0.8.8"
reqwest = { version = "=0.11.27", default-features = false, features = ["stream"] }
serde = { version = "=1.0.229", features = ["derive"] }
serde_json = "=1.0.154"
thiserror = "=1.0.69"
tokio = { version = "=1.54.1", features = ["macros", "rt", "rt-multi-thread", "sync", "time"] }
toml = "=0.8.23"
url = "=2.5.8"
