[package]
name = "mailkeep"
version = "0.1.0"
edition = "2021"
publish = false

[dependencies]
rand = "*"
serde = { version = "1", features = ["derive"] }
thiserror = "2"
chrono = "0.4"
