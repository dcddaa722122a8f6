[package]
name = "metamanager"
version = "0.1.0"
edition = "2021"
publish = false

[dependencies]
rand = "0.8"
tokio = { version = "1", features = ["io-util", "macros", "process", "rt-multi-thread", "sync", "time"] }
futures = "0.3"
anyhow = "1"
log = "0.4"
env_logger = "0.11"
