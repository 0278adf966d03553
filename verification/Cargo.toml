[package]
name = "yafb"
version = "0.1.0"
edition = "2021"
publish = false

[dependencies]
winapi = "=0.2.8"
kernel32-sys = "=0.2.2"
user32-sys = "=0.2.0"
time = "=0.1.45"
rustc-serialize = "=0.3.25"
toml-config = "*"
lazy_static = "=1.5.1"
