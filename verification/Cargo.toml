[package]
name = "callback_events"
version = "0.1.0"
edition = "2021"
publish = false

[dependencies]
anchor-lang = "=1.2.1"
bs58 = "=0.5.1"
serde = { version = "=1.0.229", features = ["derive"] }
thiserror = "=2.0.21"

[dev-dependencies]
borsh = "=1.8.1"
sha2 = "=0.10.9"
solana-pubkey = "=3.0.0"
