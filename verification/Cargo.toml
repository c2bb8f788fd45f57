[package]
name = "imgdup"
version = "0.1.0"
edition = "2021"
publish = false

[dependencies]
image = "0.23"
img_hash = "3.2"
