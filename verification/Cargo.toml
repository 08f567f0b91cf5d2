[package]
name = "uring_core"
version = "0.1.0"
edition = "2021"
publish = false

[dependencies]
io-uring = "*"
libc = "*"
parking_lot = "*"
scoped-tls = "*"
slab = "*"
socket2 = "*"
