[package]
name = "keybind"
version = "0.1.0"
edition = "2021"
publish = false

[dependencies]
mlua = { version = "=0.11.6", features = ["luajit", "vendored"] }
