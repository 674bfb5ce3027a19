[package]
name = "constant_product_amm"
version = "0.1.0"
edition = "2021"
publish = false

[dependencies]
anchor-lang = "=1.2.2"
anchor-spl = { version = "=1.2.2", default-features = false, features = ["token", "mint", "solana-v3"] }
