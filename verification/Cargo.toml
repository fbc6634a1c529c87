[package]
name = "rask"
version = "0.1.0"
edition = "2021"
publish = false

[dependencies]
ab_glyph = "0.2"
tiny-skia = "0.11"
dirs = "*"
lexopt = "0.3"
