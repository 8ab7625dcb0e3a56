[package]
name = "sharded_fungible_token"
version = "0.1.0"
edition = "2021"
publish = false

[dependencies]
borsh = "1"
hex = "0.4"
sha3 = "0.10"
serde_json = "1"
serde = { version = "1", features = ["derive"] }
serde_with = { version = "3", features = ["base64"] }
near-account-id = "1"
near-token = "0.3"
syn = { version = "2", features = ["full"] }
quote = "1"
proc-macro2 = "1"
darling = "0.20"
