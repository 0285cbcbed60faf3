[package]
name = "tex_stomach"
version = "0.1.0"
edition = "2021"
publish = false

[dependencies]
either = "*"
