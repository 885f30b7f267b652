[package]
name = "eternal"
version = "0.1.0"
edition = "2021"
publish = false

[dependencies]
sha2 = "=0.10.9"
hex = "=0.4.3"
rand = "=0.8.8"
secp256k1 = { version = "=0.28.2", features = ["rand-std"] }
serde = { version = "=1.0.229", features = ["derive"] }
serde_json = "=1.0.154"
axum = "=0.6.20"
tokio = { version = "=1.54.1", features = ["full"] }
once_cell = "=1.21.4"
libp2p = { version = "=0.52.4", default-features = false, features = ["floodsub"] }
bip32 = "=0.5.3"
rust-crypto = "=0.2.36"
rand_core = { version = "=0.6.4", features = ["getrandom"] }
