[package]
name = "tilewm"
version = "0.1.0"
edition = "2021"
publish = false

[dependencies]
keycode = "*"
x11rb = { version = "*", features = ["render"] }
