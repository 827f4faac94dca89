[package]
name = "plmap"
version = "0.3.0"
edition = "2021"
publish = false

[dependencies]
crossbeam-channel = "0.5"
crossbeam-utils = "0.8"
