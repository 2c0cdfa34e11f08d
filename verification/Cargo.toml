[package]
name = "connect_proxy"
version = "0.1.0"
edition = "2021"
publish = false

[dependencies]
tokio = { version = "1", features = ["net", "io-util", "rt-multi-thread", "macros"] }
futures = "0.3"
log = "0.4"
pretty_env_logger = "0.5"
