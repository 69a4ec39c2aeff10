[package]
name = "wit_codec"
version = "0.1.0"
edition = "2021"
publish = false

[dependencies]
leb128 = "0.2"
wast = "*"
wit-schema-version = "*"
