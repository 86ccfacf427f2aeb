[package]
name = "connect_four"
version = "0.1.0"
edition = "2021"
publish = false

[dependencies]
colored = "2"
thiserror = "1"
