[package]
name = "mirage"
version = "0.1.0"
edition = "2021"
publish = false

[dependencies]
clap = "2.32"
image = { version = "0.21", default-features = false, features = ["png_codec", "jpeg"] }
num-complex = "*"
