[package]
name = "depos"
version = "0.5.0"
edition = "2021"
publish = false

[dependencies]
anyhow = "1"
clap = { version = "4", features = ["derive"] }
metalor = "*"
sha2 = "0.10"
