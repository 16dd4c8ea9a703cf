[package]
name = "term_ui"
version = "0.1.0"
edition = "2021"
publish = false

[dependencies]
glam = "*"
sark_grids = "*"
