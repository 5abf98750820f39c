[package]
name = "passclip"
version = "0.1.0"
edition = "2021"
publish = false

[dependencies]
rand = "*"
unicode-segmentation = "*"
clap = "*"
clipboard = "*"
