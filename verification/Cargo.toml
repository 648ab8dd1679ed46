[package]
name = "webserve"
version = "0.1.0"
edition = "2021"
publish = false

[dependencies]
actix-web = "*"
actix-files = "*"
notify = "*"
tokio = { version = "*", features = ["sync"] }

[dev-dependencies]
tempfile = "*"
