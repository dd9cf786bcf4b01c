[package]
name = "it8951"
version = "0.1.0"
edition = "2021"
publish = false

[dependencies]
embedded-hal = "1"
embedded-graphics-core = "0.4"
embedded-graphics = "0.8"
linux-embedded-hal = "0.4"
