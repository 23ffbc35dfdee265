[package]
name = "pyrite"
version = "0.1.0"
edition = "2021"
publish = false

[dependencies]
simple-matrix = "*"
image = "*"
