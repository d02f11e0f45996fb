[package]
name = "fips_transport"
version = "0.1.0"
edition = "2021"
publish = false

[dependencies]
bytes = "1"
futures = "0.3"
hex = "0.4"
if-addrs = "*"
libc = "0.2"
mdns-sd = "*"
nostr = ">=0.40, <0.45"
portable-atomic = "1"
rand = "0.10"
secp256k1 = ">=0.29, <0.32"
serde = { version = "1", features = ["derive"] }
serde_json = "1"
socket2 = { version = "0.6", features = ["all"] }
tokio = { version = "1", features = ["full"] }
tokio-socks = "0.5"
tracing = "0.1"
webrtc = ">=0.12, <0.18"
