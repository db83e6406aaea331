[package]
name = "wnfs_bridge"
version = "0.1.0"
edition = "2021"
publish = false

[dependencies]
libc = "0.2"
libipld = "0.12.0"

[dev-dependencies]
hex = "0.4"
