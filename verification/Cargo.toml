[package]
name = "nostr_sdk"
version = "0.1.0"
edition = "2021"
publish = false

[dependencies]
anyhow = "=1.0.104"
bitcoin_hashes = "0.11"
nostr-sdk-base = "=0.1.5"
tokio = { version = "=1.53.2", features = ["rt-multi-thread", "sync"] }
