[package]
name = "chatter"
version = "0.1.0"
edition = "2021"
publish = false

[dependencies]
byteorder = "1"
bytes = "0.4"
clap = "2"
crc = "1"
futures = "0.1"
tokio = "0.1"
