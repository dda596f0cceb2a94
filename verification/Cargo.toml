[package]
name = "cnf"
version = "0.1.0"
edition = "2021"
publish = false

[dependencies]
glob = "0.3"
libc = "0.2"
tr = "0.1"
