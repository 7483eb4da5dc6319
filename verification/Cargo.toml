[package]
name = "raw"
version = "0.1.0"
edition = "2021"
publish = false

[dependencies]
anyhow = "*"
crossterm = "*"
ropey = "*"
unicode-segmentation = "*"
unicode-width = "*"
