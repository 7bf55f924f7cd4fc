[package]
name = "image_toolbox"
version = "0.1.0"
edition = "2021"

[dependencies]
image = { version = "0.21", default-features = false }
