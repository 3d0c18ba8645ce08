[package]
name = "pipeflow"
version = "0.1.0"
edition = "2021"
publish = false

[dependencies]
anyhow = "1"
unicode-segmentation = "1"
