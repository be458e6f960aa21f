[package]
name = "ledger_gas"
version = "0.1.0"
edition = "2021"
publish = false

[dependencies]
borsh = "0.10"
serde = { version = "1", features = ["derive"] }
