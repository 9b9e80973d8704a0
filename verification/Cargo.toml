[package]
name = "imag"
version = "0.1.0"
edition = "2021"
publish = false

[dependencies]
serde_json = "1"
chrono = "0.4"
itertools = "*"
uuid = "1"
task-hookrs = "*"
