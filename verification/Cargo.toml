[package]
name = "crypto_daily_processor"
version = "0.1.0"
edition = "2021"
publish = false

[dependencies]
crypto-msg-parser = "=2.9.2"
crypto-pair = "=2.3.20"
crypto-market-type = "=1.1.6"
protobuf = "=3.5.0"
dashmap = "=6.2.1"
serde = { version = "*", features = ["derive"] }
serde_json = "*"
flate2 = "*"
xz2 = "*"
glob = "*"
log = "*"
env_logger = "*"
num_cpus = "*"
threadpool = "*"
rand = "*"
rlimit = "*"
sysinfo = "*"
