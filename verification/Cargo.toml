[package]
name = "noodles_codecs"
version = "0.1.0"
edition = "2021"
publish = false

[dependencies]
flate2 = "*"
md-5 = "*"
