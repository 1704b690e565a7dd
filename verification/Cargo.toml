[package]
name = "mz16"
version = "0.1.0"
edition = "2021"

[dependencies]
byteorder = "1"
