[package]
name = "markit"
version = "0.1.0"
edition = "2021"
publish = false

[dependencies]
nucleo-matcher = "0.3"
clap = { version = "4", features = ["derive"] }
