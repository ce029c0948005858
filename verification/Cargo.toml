[package]
name = "doryen_ui"
version = "0.1.0"
edition = "2021"
publish = false

[dependencies]
unicode-segmentation = "1"
doryen-rs = "*"
