[package]
name = "nrf_recover"
version = "0.1.0"
edition = "2021"
publish = false

[dependencies]
anyhow = "=1.0.104"
probe-rs = "0.11"
