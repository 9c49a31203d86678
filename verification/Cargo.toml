[package]
name = "gray_hole"
version = "0.1.0"
edition = "2021"
publish = false

[dependencies]
anyhow = "*"
socket2 = "*"
