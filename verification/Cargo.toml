[package]
name = "html2pdf"
version = "0.1.0"
edition = "2021"
publish = false

[dependencies]
miniz_oxide = "0.8"
unicode-width = "0.2"
image = { version = "0.25", default-features = false, features = ["gif", "bmp"] }
