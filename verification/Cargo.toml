[package]
name = "gh_qwt"
version = "0.12.0"
edition = "2021"
publish = false

[dependencies]
clap = { version = "=4.6.7", features = ["derive"] }
