[package]
name = "kon"
version = "0.1.0"
edition = "2021"
publish = false

[dependencies]
bumpalo = { version = "=3.20.3", features = ["boxed"] }
pico-args = "=0.5.0"

[dev-dependencies]
peg = "=0.8.6"
