[package]
name = "wndsize"
version = "0.1.0"
edition = "2021"
publish = false

[dependencies]
getopts = "0.2"
winapi = { version = "0.3", features = ["winuser"] }
