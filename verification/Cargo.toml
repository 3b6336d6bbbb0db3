[package]
name = "yggtracker"
version = "0.1.0"
edition = "2021"
publish = false

[dependencies]
chrono = "*"
clap = { version = "*", features = ["derive"] }
librqbit-core = "*"
rand = "*"
url = "*"
urlencoding = "*"
