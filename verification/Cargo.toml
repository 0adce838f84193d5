[package]
name = "claud_coin"
version = "0.1.0"
edition = "2021"
publish = false

[dependencies]
solana-program = "=1.18.26"
borsh = { version = "1", features = ["derive"] }
thiserror = "1"
anyhow = "1"
serde = { version = "1", features = ["derive"] }
tokio = { version = "1", features = ["sync"] }
solana-sdk = "=1.18.26"
