[package]
name = "dersp"
version = "0.1.0"
edition = "2021"
publish = false

[dependencies]
anyhow = "1"
clap = { version = "4", features = ["derive"] }
crypto_box = "0.9"
env_logger = "0.10"
httparse = "1"
log = "0.4"
proc-macro2 = "1"
quote = "1"
rand_core = { version = "0.6", features = ["getrandom"] }
serde = { version = "1", features = ["derive"] }
serde_json = "1"
syn = { version = "1", features = ["full"] }
tokio = { version = "1", features = ["full"] }
