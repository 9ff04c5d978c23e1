[package]
name = "tic-tac-toe"
version = "0.1.0"
edition = "2021"
publish = false

[dependencies]
cosmwasm-std = "1"
cw-storage-plus = "1"
cw2 = "1"
serde = { version = "1", default-features = false, features = ["derive"] }
thiserror = "1"
