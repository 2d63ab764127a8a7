[package]
name = "margined_core"
version = "0.1.0"
edition = "2021"
publish = false

[dependencies]
cosmwasm-bignumber = "2.2"
cosmwasm-std = "0.16"
cosmwasm-storage = "0.16"
cw-controllers = "0.8"
cw-storage-plus = "0.8"
cw20 = "0.8"
schemars = "0.8"
serde = { version = "1", default-features = false, features = ["derive"] }
sha3 = "0.10"
