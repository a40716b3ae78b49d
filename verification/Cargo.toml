[package]
name = "mail_core"
version = "0.1.0"
edition = "2021"
publish = false

[dependencies]
ahash = "0.8"
hyper = "1"
lru-cache = "0.1"
mail-auth = "0.3"
mail-parser = "0.9"
mail-send = "0.4"
parking_lot = "0.12"
rand = "0.8"
rustls = "0.22"
rustls-pemfile = "2"
rustls-pki-types = "1"
serde = { version = "1", features = ["derive"] }
tracing = "0.1"
