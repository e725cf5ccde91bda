[package]
name = "qurs"
version = "0.1.0"
edition = "2021"
publish = false

[dependencies]
num = "0.4"
ordered-float = "3"
rand = "0.8"
superslice = "1"
