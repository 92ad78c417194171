[package]
name = "c2pa_attacks"
version = "0.1.0"
edition = "2021"
publish = false

[dependencies]
anyhow = "*"
c2pa = { version = "=0.90.22", features = ["file_io"] }
clap = { version = "*", features = ["derive", "env"] }
env_logger = "*"
log = "*"
reqwest = { version = "*", default-features = false, features = ["blocking"] }
serde_json = "=1.0.151"
url = "=2.5.8"
