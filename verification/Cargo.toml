[package]
name = "binaries_ui"
version = "0.1.0"
edition = "2021"
publish = false

[dependencies]
taffy = "0.5"
idgenerator = "2.0.0"
lyon = "1"
rusttype = "0.9"
svg = "0.17"
