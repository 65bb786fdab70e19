[package]
name = "posix_api"
version = "0.1.0"
edition = "2021"
publish = false

[dependencies]
axerrno = "*"
xmas-elf = "*"
linux-raw-sys = { version = "*", default-features = false, features = ["general", "ioctl", "auxvec", "system"] }
