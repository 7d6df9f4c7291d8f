[package]
name = "automd_rs"
version = "0.1.0"
edition = "2021"
publish = false

[dependencies]
log = "*"
serde = "*"
thiserror = "*"
url = "*"
