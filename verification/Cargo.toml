[package]
name = "rusync"
version = "0.1.0"
edition = "2021"
publish = false

[dependencies]
colored = "*"
pathdiff = "*"
