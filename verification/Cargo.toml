[package]
name = "nft_auction"
version = "0.1.0"
edition = "2021"
publish = false

[dependencies]
cosmwasm-std = "1"
cosmwasm-storage = "1"
cw-storage-plus = "1"
cw20 = "1"
cw721 = "0.18"
cw721-base = { version = "0.18", features = ["library"] }
schemars = "0.8"
serde = { version = "1", features = ["derive"] }
