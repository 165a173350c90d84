[package]
name = "render-liquid"
version = "0.1.0"
edition = "2021"
publish = false

[dependencies]
clap = "2"
liquid = "0.10"
toml = "0.4"
