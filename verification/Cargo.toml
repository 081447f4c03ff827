[package]
name = "icrc7"
version = "0.1.0"
edition = "2021"
publish = false

[dependencies]
candid = "0.10"
ciborium = "0.2"
ic-cdk = "0.12"
ic-cdk-macros = "0.8"
ic-stable-structures = "0.6"
icrc-ledger-types = "0.1"
icrc-nft-types = "*"
itertools = "0.12"
serde = { version = "1", features = ["derive"] }
