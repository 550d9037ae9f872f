[package]
name = "glyph_flatten"
version = "0.1.0"
edition = "2021"
publish = false

[dependencies]
fontdb = "*"
log = "*"
skrifa = "*"
svgtypes = "*"
tiny-skia-path = "*"
xmlwriter = "*"
