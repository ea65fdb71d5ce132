[package]
name = "pw_vault"
version = "0.1.0"
edition = "2021"
publish = false

[dependencies]
rust-argon2 = { version = "=3.0.0", features = ["crossbeam-utils"] }
ring = "=0.16.20"
rand = "=0.7.3"
serde = { version = "=1.0.229", features = ["derive"] }
serde_json = "=1.0.154"
rpassword = "=5.0.1"
clipboard = "=0.5.0"
dirs = "=2.0.2"
