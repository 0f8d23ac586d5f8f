[package]
name = "rsmobiledevice"
version = "0.1.0"
edition = "2021"
publish = false

[dependencies]
regex = "1"
plist_plus = "*"
rusty_libimobiledevice = "*"
