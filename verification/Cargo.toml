[package]
name = "pngme"
version = "0.1.0"
edition = "2021"

[dependencies]
crc = "3"
clap = "3"
