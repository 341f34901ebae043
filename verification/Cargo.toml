[package]
name = "lychee"
version = "0.1.0"
edition = "2021"
publish = false

[dependencies]
iced = { version = "=0.14.0", default-features = false, features = ["image-without-codecs", "canvas", "tiny-skia", "x11", "tokio"] }
iced_graphics = "=0.14.0"
image = { version = "=0.25.10", default-features = false, features = ["png", "jpeg", "gif", "bmp", "tiff", "webp", "ico", "pnm", "tga", "qoi", "hdr", "exr", "dds", "ff"] }
minifb = "=0.29.0"
pound = "=0.6.1"
