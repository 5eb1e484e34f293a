[package]
name = "gitgraph"
version = "0.1.0"
edition = "2021"
publish = false

[dependencies]
derivative = "2"
env_logger = "0.10"
git2 = { version = "=0.17.2", default-features = false }
itertools = "=0.10.5"
lazy_static = "1"
log = "=0.4.34"
logging_timer = "1"
md5 = "=0.7.0"
memoize = "0.4"
mime-sniffer = "=0.1.3"
notify = { version = "=6.1.1", features = ["serde"] }
port_check = "=0.1.5"
rocket = "=0.5.2"
serde = { version = "=1.0.229", features = ["derive"] }
serde_json = "=1.0.154"
tracing-subscriber = "0.3"
