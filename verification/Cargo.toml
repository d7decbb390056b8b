[package]
name = "textflow"
version = "0.1.0"
edition = "2021"
publish = false

[dependencies]
pdf-canvas = "*"
pulldown-cmark = { version = "*", default-features = false }
