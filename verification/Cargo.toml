[package]
name = "nvcat"
version = "0.1.0"
edition = "2021"
publish = false

[dependencies]
rmp = "*"
rmpv = "*"
color = "*"
