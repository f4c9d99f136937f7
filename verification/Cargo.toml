[package]
name = "latte"
version = "0.1.0"
edition = "2021"
publish = false

[dependencies]
rune = "0.14"
rmp-serde = "1"
thiserror = "*"
hdrhistogram = "7"
