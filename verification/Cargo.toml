[package]
name = "leafs_odyssey_data"
version = "0.1.0"
edition = "2021"
publish = false

[dependencies]
array2d = "*"
rand = "0.8"
