[package]
name = "shorturl"
version = "0.1.0"
edition = "2021"
publish = false

[dependencies]
harsh = "*"
pickledb = "*"
actix-web = "*"
clap = { version = "*", features = ["derive"] }
serde = { version = "*", features = ["derive"] }
env_logger = "*"
log = "*"
