[package]
name = "reet"
version = "0.1.0"
edition = "2021"
publish = false

[dependencies]
canihazip = "*"
dotenv = "*"
human-panic = "*"
log = "*"
pretty_env_logger = "*"
reqwest = { version = "*", features = ["blocking", "json"] }
serde = { version = "*", features = ["derive"] }
