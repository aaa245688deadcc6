[package]
name = "wallet_balance"
version = "0.1.0"
edition = "2021"
publish = false

[dependencies]
primitive-types = { version = "0.12", default-features = false }
rand = "0.8.5"
serde = { version = "1", features = ["derive"] }
log = "0.4"
packable = "0.8"
derive_more = { version = "0.99", features = ["from"] }
