[package]
name = "titan_wipe"
version = "1.0.0"
edition = "2021"
publish = false

[dependencies]
blake3 = "1"
chrono = "0.4"
clap = { version = "4", features = ["derive"] }
ctrlc = "3"
env_logger = "0.11"
indicatif = "0.17"
libc = "0.2"
log = "0.4"
rand = "0.8"
serde = { version = "1", features = ["derive"] }
serde_json = "1"
thiserror = "1"
uuid = { version = "1", features = ["v4"] }
