[package]
name = "ring_sink"
version = "0.1.0"
edition = "2021"
publish = false

[dependencies]
eyre = "0.6"
io-uring = "*"
libc = "0.2"
rand = "0.8"
socket2 = { version = "0.5", features = ["all"] }
tokio = { version = "1", features = ["rt-multi-thread", "net", "io-util", "macros"] }
