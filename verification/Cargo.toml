[package]
name = "evdev_shortcut"
version = "0.1.0"
edition = "2021"
publish = false

[dependencies]
evdev = "*"
