[package]
name = "screen_resolution"
version = "0.1.0"
edition = "2021"
publish = false

[dependencies]
regex = "1"
clap = "2"
core-foundation = "*"
core-graphics = "*"
dialoguer = "*"
error-chain = "0.12"
libc = "0.2"
