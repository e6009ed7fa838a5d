[package]
name = "discord_ipc"
version = "0.1.0"
edition = "2021"
publish = false

[dependencies]
byteorder = "1"
log = "0.4"
serde_json = "1"
uuid = { version = "1", features = ["v4"] }
