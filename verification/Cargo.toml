[package]
name = "stagecraft"
version = "0.1.0"
edition = "2021"
publish = false

[dependencies]
log = "*"
sdl2 = { version = "*", features = ["image", "mixer"] }
uuid = { version = "*", features = ["v4"] }
