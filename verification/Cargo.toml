[package]
name = "ffmpreg"
version = "0.1.0"
edition = "2021"
publish = false

[dependencies]
nanomp3 = "*"
openh264 = "*"
rayon = "*"
rustc-hash = "*"
