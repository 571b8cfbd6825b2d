[package]
name = "rawrec"
version = "0.1.0"
edition = "2021"
publish = false

[dependencies]
betrayer = { version = "*", features = ["winit"] }
cpal = "*"
png = "*"
winit = "*"
