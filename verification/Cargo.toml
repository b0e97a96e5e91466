[package]
name = "instantmon"
version = "0.1.0"
edition = "2021"
publish = false

[dependencies]
actix-web = "4"
chrono = "0.4"
env_logger = "0.10"
log = "0.4"
serde = { version = "1", features = ["derive"] }
sysinfo = "0.29"
