[package]
name = "ore_stats"
version = "0.1.0"
edition = "2021"
publish = false

[dependencies]
ore-api = "*"
steel = "*"
bs58 = "0.5.1"
sha2 = "0.10.9"
hex = "0.4.3"
rand = "0.8.5"
argon2 = "0.5.3"
serde = { version = "1", features = ["derive"] }
serde_json = "1"
bytemuck = "1"
base64 = "0.22.1"
zstd = "0.13"
