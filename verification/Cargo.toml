[package]
name = "bigbro"
version = "0.1.0"
edition = "2021"
publish = false

[dependencies]
libc = "=0.2.191"
seccomp = "=0.1.2"
seccomp-sys = "=0.1.3"
