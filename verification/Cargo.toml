[package]
name = "getme"
version = "0.1.0"
edition = "2021"
publish = false

[dependencies]
regex = "*"
ignore = "*"
rayon = "*"
clap = "*"
colored = "*"
rlua = "*"
