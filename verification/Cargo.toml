[package]
name = "smart_rockets"
version = "0.1.0"
edition = "2021"
publish = false

[dependencies]
rand = "*"
