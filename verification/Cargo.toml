[package]
name = "opus_decode"
version = "0.1.0"
edition = "2021"
publish = false

[dependencies]
byteorder = "1"
ogg = "0.7"
