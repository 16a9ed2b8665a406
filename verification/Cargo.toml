[package]
name = "iota_ledger"
version = "0.1.0"
edition = "2021"
publish = false

[dependencies]
fastcrypto = "=0.1.11"
ledger-transport = "=0.11.0"
bip32 = { version = "=0.6.0", features = ["alloc"] }
base64 = "=0.23.1"

[dev-dependencies]
sha2 = "=0.10.9"
