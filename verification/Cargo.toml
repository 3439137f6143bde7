[package]
name = "syx"
version = "0.1.0"
edition = "2021"
publish = false

[dependencies]
clap = { version = "=4.6.7", features = ["derive"] }
hex = "=0.4.3"
syxpack = "=0.14.0"
