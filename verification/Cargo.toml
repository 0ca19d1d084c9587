[package]
name = "svg_restyle"
version = "0.1.0"
edition = "2021"
publish = false

[dependencies]
quick-xml = "0.37"
regex = "1"
walkdir = "2"
