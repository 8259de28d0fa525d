[package]
name = "rsnc"
version = "0.1.0"
edition = "2021"
publish = false

[dependencies]
clap = { version = "4", features = ["derive", "env"] }
dotenv = "0.15"
home-dir = "*"
