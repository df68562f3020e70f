[package]
name = "rustot"
version = "0.1.0"
edition = "2021"
publish = false

[dependencies]
heapless = "=0.7.17"
mqttrust = "0.6.0"
