[package]
name = "midi_to_switch"
version = "0.1.0"
edition = "2021"
publish = false

[dependencies]
libc = "*"
log = "*"
midir = "*"
