[package]
name = "sdffont"
version = "0.1.0"
edition = "2021"
publish = false

[dependencies]
etagere = "*"
fontdue = "*"
ttf-parser = "*"
sdfer = "*"
