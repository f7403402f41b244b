[package]
name = "columbus"
version = "0.1.0"
edition = "2021"
publish = false

[dependencies]
cosmwasm-std = "*"
cosmwasm-schema = "*"
cw-storage-plus = "*"
cw2 = "*"
thiserror = "*"
