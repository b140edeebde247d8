[package]
name = "token_sale"
version = "0.1.0"
edition = "2021"
publish = false

[dependencies]
sha2 = "*"
hex = "*"
cosmwasm-std = "1"
cw20 = "1"
cw-storage-plus = "1"
schemars = "*"
serde = { version = "*", features = ["derive"] }
