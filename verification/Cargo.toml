[package]
name = "schwartz_zippel"
version = "0.1.0"
edition = "2021"

[dependencies]
rand = "*"
