[package]
name = "newcular"
version = "0.1.0"
edition = "2021"
publish = false

[dependencies]
crossbeam-channel = "0.5"
actix-web = "4"
ansi_term = "0.12"
env_logger = "0.10"
log = "0.4"
serde = { version = "1", features = ["derive"] }

[dev-dependencies]
rand = "0.8"
