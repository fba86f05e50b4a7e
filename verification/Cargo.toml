[package]
name = "pdf_font_core"
version = "0.1.0"
edition = "2021"
publish = false

[dependencies]
fontdb = "=0.24.0"
miniz_oxide = "=0.9.1"
pdf-writer = "=0.15.0"
siphasher = "=1.0.4"
subsetter = "=0.1.1"
ttf-parser = "=0.25.1"
