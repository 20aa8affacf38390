[package]
name = "lambdo"
version = "0.1.0"
edition = "2021"
publish = false

[dependencies]
uuid = { version = "*", features = ["v4"] }
actix-web = "*"
anyhow = "*"
async-trait = "*"
clap = { version = "*", features = ["derive"] }
default-net = "*"
firepilot = "*"
futures = "*"
iptables = "*"
network_bridge = "*"
network-interface = "*"
reqwest = { version = "*", default-features = false, features = ["stream"] }
serde = { version = "*", features = ["derive"] }
serde_yaml = "*"
tokio = { version = "*", features = ["full"] }
tokio-tun = "*"
tracing = "*"
tracing-subscriber = { version = "*", features = ["env-filter"] }
