[package]
name = "yarn_spool"
version = "0.1.0"
edition = "2021"
publish = false

[dependencies]
csv = "1"
prost = "0.12"
serde = { version = "1", features = ["derive"] }
