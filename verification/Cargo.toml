[package]
name = "krpcgen"
version = "0.1.0"
edition = "2021"
publish = false

[dependencies]
clap = { version = "4", features = ["derive"] }
indexmap = "2"
unicode_reader = "1"
