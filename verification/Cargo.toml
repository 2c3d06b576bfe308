[package]
name = "rc_input"
version = "0.1.0"
edition = "2021"
publish = false

[dependencies]
glob = "0.3"
libc = "0.2"
nix = { version = "0.29", features = ["ioctl"] }
notify = "6"
