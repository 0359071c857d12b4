[package]
name = "vbf_tool"
version = "0.1.0"
edition = "2021"
publish = false

[dependencies]
clap = "2"
crc = "2"
json = "0.12"
sha2 = "0.10"
