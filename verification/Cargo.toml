[package]
name = "bench_server"
version = "0.1.0"
edition = "2021"
publish = false

[dependencies]
actix-web = "*"
base64 = "*"
chrono = "*"
env_logger = "*"
log = "*"
openssl = "*"
serde = { version = "*", features = ["derive"] }
serde_json = "*"
walkdir = "*"
