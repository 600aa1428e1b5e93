[package]
name = "copiepate"
version = "0.2.0"
edition = "2021"
publish = false

[dependencies]
anyhow = "1"
base64 = "0.13"
chacha20poly1305 = "0.10"
clipboard = "0.5"
config = { version = "0.11", default-features = false, features = ["toml"] }
etcetera = "*"
log = "0.4"
rand = "0.8"
serde = { version = "1", features = ["derive"] }
simple_logger = "*"
structopt = "0.3"
thiserror = "1"
