[package]
name = "teleddns"
version = "0.1.0"
edition = "2021"
publish = false

[dependencies]
async-process = "*"
clap = { version = "*", features = ["derive"] }
clap-verbosity-flag = "*"
env_logger = "*"
futures = "*"
http = "*"
log = "*"
netlink-packet-core = "*"
netlink-packet-route = "*"
netlink-sys = "*"
reqwest = "*"
rtnetlink = "*"
serde = { version = "*", features = ["derive"] }
serde_derive = "*"
serde_yaml = "*"
tokio = { version = "*", features = ["full"] }
