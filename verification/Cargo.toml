[package]
name = "trombinoscope"
version = "0.1.0"
edition = "2021"
publish = false

[dependencies]
image = "*"
imagesize = "*"
unicode-normalization = "*"
zip = "*"
pdfium-render = "*"
