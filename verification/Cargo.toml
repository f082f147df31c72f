[package]
name = "vault_core"
version = "0.1.0"
edition = "2021"
publish = false

[dependencies]
chrono = "0.4"
hex = "0.4"
md5 = "0.7"
natord = "1.0"
serde = { version = "1", features = ["derive"] }
thiserror = "1"
