[package]
name = "encode_unicode"
version = "1.0.0"
edition = "2021"
publish = false

[dependencies]
ascii = "*"
