[package]
name = "dex_core"
version = "0.1.0"
edition = "2021"
publish = false

[dependencies]
hydra-dx-math = "=4.4.3"
