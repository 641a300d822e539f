[package]
name = "whilers"
version = "0.1.0"
edition = "2021"
publish = false

[dependencies]
regex = "1"
anyhow = "1"
indexmap = "2"
clap = { version = "4", features = ["derive"] }
serde = { version = "1", features = ["derive"] }
