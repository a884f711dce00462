[package]
name = "isle_codegen"
version = "0.1.0"
edition = "2021"
publish = false

[dependencies]
clap = { version = "3.2", features = ["derive"] }
env_logger = { version = "0.9", default-features = false }
