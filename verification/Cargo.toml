[package]
name = "wasi_usb"
version = "0.1.0"
edition = "2021"
publish = false

[dependencies]
rusb = "*"
bytes = "*"
anyhow = "*"
mbrman = "*"
exfat = "*"
nokhwa = "*"
image = "*"
