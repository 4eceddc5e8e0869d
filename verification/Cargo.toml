[package]
name = "aperture_kill"
version = "0.1.0"
edition = "2021"
publish = false

[dependencies]
sha2 = "*"
toml = "*"
thiserror = "*"
glam = "*"
