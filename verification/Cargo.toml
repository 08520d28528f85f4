[package]
name = "console_ghr"
version = "0.1.0"
edition = "2021"
publish = false

[dependencies]
blurz = "0.4"
dbus = "0.8"
buttplug = "0.4"
smol = "0.1"
async-channel = "1"
futures = "0.3"
uuid = { version = "0.8", features = ["v4"] }
libc = "0.2"
