[package]
name = "mini_mqtt"
version = "0.1.0"
edition = "2021"
publish = false

[dependencies]
chrono = "*"
