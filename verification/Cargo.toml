[package]
name = "signitify"
version = "0.1.0"
edition = "2021"
publish = false

[dependencies]
sha2 = "=0.10.9"
hex = "=0.4.3"
libc = "=0.2.191"
eframe = { version = "0.22", default-features = false, features = ["glow", "default_fonts"] }
