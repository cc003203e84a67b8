[package]
name = "system_deps"
version = "2.0.0"
edition = "2021"
publish = false

[dependencies]
cfg-expr = "*"
heck = "*"
itertools = "*"
pkg-config = "*"
version-compare = "*"
