[package]
name = "mylan"
version = "0.1.0"
edition = "2021"
publish = false

[dependencies]
csv = "1"
serde = { version = "1", features = ["derive"] }
serde_json = "1"
serde_yaml_ng = "*"
rusqlite = { version = "*", features = ["bundled"] }
tokio = { version = "1", features = ["full"] }
tokio-util = "*"
socket2 = { version = "0.5", features = ["all"] }
mdns-sd = "*"
hickory-resolver = "*"
netdev = "*"
pnet = "*"
nix = { version = "*", features = ["socket", "net", "uio", "poll"] }
time = { version = "0.3", features = ["formatting"] }
uuid = { version = "1", features = ["v4"] }
anyhow = "1"
thiserror = "*"
zbus = "*"
