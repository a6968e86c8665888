[package]
name = "kindle-button-mapper"
version = "0.1.0"
edition = "2021"
publish = false

[dependencies]
configparser = { version = "3", features = ["indexmap"] }
evdev = "0.12"
log = "0.4"
nix = { version = "0.29", features = ["fs", "ioctl"] }
