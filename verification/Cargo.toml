[package]
name = "ma_tif"
version = "0.1.0"
edition = "2021"
publish = false

[dependencies]
clap = { version = "4", features = ["derive"] }
image = { version = "*", default-features = false, features = ["png", "bmp"] }
texpresso = "2"
