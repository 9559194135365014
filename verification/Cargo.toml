[package]
name = "map2"
version = "0.1.0"
edition = "2021"
publish = false

[dependencies]
regex = "*"
evdev-rs = "*"
clap = "*"
xdg = "*"
anyhow = "*"
walkdir = "*"
notify = "*"
libc = "*"
