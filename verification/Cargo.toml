[package]
name = "legends_registration"
version = "0.1.0"
edition = "2021"
publish = false

[dependencies]
cosmwasm-std = "~1.4"
cw-storage-plus = "~1.2"
cw2 = "~1.1"
cw-utils = "~1.0"
serde = { version = "1", features = ["derive"] }
