[package]
name = "quad"
version = "0.1.0"
edition = "2021"
publish = false

[dependencies]
image = "0.24"
rfd = "0.11"
home = "0.5"
