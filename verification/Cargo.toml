[package]
name = "map_core"
version = "0.1.0"
edition = "2021"
publish = false

[dependencies]
sorted-vec = "*"
fixed = "*"
cordic = "*"
