[package]
name = "tamilcharutils"
version = "0.1.0"
edition = "2021"
publish = false

[dependencies]
cpython = "=0.7.2"
strsim = "=0.11.1"
unicode-segmentation = "=1.13.3"

[dev-dependencies]
regex = "=1.13.1"
