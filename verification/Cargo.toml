[package]
name = "renderer"
version = "0.1.0"
edition = "2021"
publish = false

[dependencies]
cgmath = "0.18"
image = { version = "0.24", default-features = false, features = ["png"] }
clap = "2"
ron = "0.8"
serde = { version = "1", features = ["derive"] }
rayon = "1"
typed-arena = "2"
