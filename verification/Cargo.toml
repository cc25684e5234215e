[package]
name = "ruskey"
version = "0.1.0"
edition = "2021"
publish = false

[dependencies]
linux-keyutils = "=0.2.5"
errno = "=0.3.14"
libc = "=0.2.190"
