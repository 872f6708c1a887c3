[package]
name = "uuid_spoofer"
version = "0.1.0"
edition = "2021"
publish = false

[dependencies]
core-foundation-sys = "0.8"
ctor = "0.2"
libc = "0.2"
