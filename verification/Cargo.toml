[package]
name = "cargo_dev_install"
version = "0.1.0"
edition = "2021"
publish = false

[dependencies]
clap = { version = "*", features = ["derive"] }
cargo_metadata = "*"
