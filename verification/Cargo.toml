[package]
name = "image_converter"
version = "0.1.0"
edition = "2021"
publish = false

[dependencies]
image = "0.24"
webp = "0.2"
clap = "4"
