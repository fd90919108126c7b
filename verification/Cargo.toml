[package]
name = "stats"
version = "0.1.0"
edition = "2021"
publish = false

[dependencies]
fast-float = "*"
getopts = "0.2"
separator = "*"
