[package]
name = "pod"
version = "0.1.0"
edition = "2021"
publish = false

[dependencies]
slab = "*"
bittle = "*"
anyhow = "*"
tracing = "*"
libc = "*"
