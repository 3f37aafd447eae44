[package]
name = "unit_designator"
version = "0.1.0"
edition = "2021"
publish = false

[dependencies]
anyhow = "1"
jiff = { version = "0.2", default-features = false, features = ["std"] }
lexopt = "0.3"
