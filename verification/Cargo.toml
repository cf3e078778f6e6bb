[package]
name = "ezvis"
version = "0.1.0"
edition = "2021"
publish = false

[dependencies]
chrono = "*"
url = "*"
clap = { version = "*", features = ["derive"] }
duckdb = "*"
