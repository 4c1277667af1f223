[package]
name = "rustpipe"
version = "1.0.0"
edition = "2021"
publish = false

[dependencies]
thiserror = "2"
