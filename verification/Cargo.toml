[package]
name = "pingw"
version = "0.1.0"
edition = "2021"
publish = false

[dependencies]
pnet = "*"
rand = "*"
thiserror = "*"
clap = { version = "*", features = ["derive"] }
