[package]
name = "linfit"
version = "0.1.0"
edition = "2021"
publish = false

[dependencies]
csv = "1"
gl = "0.14"
glutin = "0.29"
