[package]
name = "minisudo"
version = "0.1.0"
edition = "2021"
publish = false

[dependencies]
pam = "0.7"
rpassword = "5"
serde = { version = "1", features = ["derive"] }
toml = "0.5"
users = "0.11"
