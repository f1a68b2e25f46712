[package]
name = "speed"
version = "0.1.0"
edition = "2021"
publish = false

[dependencies]
embassy-net = { version = "0.7", features = ["tcp", "udp", "dhcpv4", "medium-ethernet", "proto-ipv4"] }
embassy-sync = "0.7"
embedded-graphics = "0.8"
futures-util = "0.3"
iced = { version = "0.14", default-features = false, features = ["tiny-skia", "tokio", "x11"] }
mac_address = "1"
rumqttd = { version = "0.20", default-features = false }
serde = { version = "1", features = ["derive"] }
serde_json = "1"
tokio = { version = "1", features = ["full"] }
tracing-subscriber = { version = "0.3", features = ["env-filter"] }
