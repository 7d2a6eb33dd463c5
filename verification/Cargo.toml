[package]
name = "ethercat"
version = "0.1.0"
edition = "2021"
publish = false

[dependencies]
pnet = "=0.35.0"
pico-args = "=0.3.4"
