[package]
name = "ice"
version = "0.1.0"
edition = "2021"
publish = false

[dependencies]
crc = "3"
stun = "*"
turn = "*"
webrtc-util = "*"
tokio = { version = "1", features = ["sync", "macros", "rt", "time"] }
async-trait = "0.1"
log = "0.4"
