[package]
name = "sensordash"
version = "0.1.0"
edition = "2021"
publish = false

[dependencies]
anyhow = "*"
lm-sensors = "*"
num-format = "*"
nvml-wrapper = "*"
ratatui = "*"
