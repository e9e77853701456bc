[package]
name = "csqtt"
version = "2.0.0"
edition = "2021"
publish = false

[dependencies]
anyhow = "1"
bytes = "1"
chrono = "0.4"
clap = { version = "4", features = ["derive", "env"] }
crc32fast = "1"
crossbeam-queue = "0.3"
hmac = "0.12"
libc = "0.2"
md-5 = "0.10"
primp = "*"
rand = "0.9"
serde = { version = "1", features = ["derive"] }
serde_json = "1"
sha1 = "0.10"
socket2 = { version = "0.5", features = ["all"] }
tokio = { version = "1", features = ["full"] }
tokio-util = "0.7"
tun = "*"
url = "2"
uuid = { version = "1", features = ["v4"] }
