[package]
name = "core_pool"
version = "0.1.0"
edition = "2021"
publish = false

[dependencies]
anyhow = "1"
hwloc = "0.3"
libc = "0.2"
log = "0.4"
