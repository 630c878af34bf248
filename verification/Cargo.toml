[package]
name = "touchpipe"
version = "0.1.0"
edition = "2021"

[dependencies]
evdev = "*"
