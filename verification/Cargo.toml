[package]
name = "click"
version = "0.1.0"
edition = "2021"
publish = false

[dependencies]
chrono = "*"
humantime = "*"
duct = "*"
serde_json = "*"
