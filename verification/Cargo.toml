[package]
name = "atoy"
version = "0.1.0"
edition = "2021"
publish = false

[dependencies]
thiserror = "2"
anyhow = "1"
