[package]
name = "p5"
version = "0.1.0"
edition = "2021"
publish = false

[dependencies]
gl = "*"
glutin = "0.19"
rand = "*"
