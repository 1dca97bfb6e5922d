[package]
name = "ping"
version = "0.1.0"
edition = "2021"
publish = false

[dependencies]
bytes = "0.4"
futures = "0.1"
tokio = "0.1"
rand = "0.6"
fnv = "1"
log = "0.4"
env_logger = "0.6"
p2p = "*"
secio = "*"
