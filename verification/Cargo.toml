[package]
name = "locbox"
version = "0.1.0"
edition = "2021"
publish = false

[dependencies]
orion = "0.17"
base64 = "0.22"
clap = { version = "4", features = ["derive"] }
rpassword = "7"
anyhow = "1"
