[package]
name = "qkd"
version = "0.1.0"
edition = "2021"
publish = false

[dependencies]
bon = "3"
clap = { version = "4", features = ["derive"] }
csv = "1"
num-complex = "0.4"
rand = "0.9"
