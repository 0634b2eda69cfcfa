[package]
name = "c4-e5-chess"
version = "0.1.0"
edition = "2021"
publish = false

[dependencies]
cozy-chess = "*"
hashbrown = "*"
rayon = "*"
log = "*"
simple-logging = "*"
