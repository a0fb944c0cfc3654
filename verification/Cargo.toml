[package]
name = "voynich"
version = "0.1.0"
edition = "2021"
publish = false

[dependencies]
anyhow = "1"
chacha20poly1305 = "=0.10.1"
chrono = "=0.4.45"
circular-queue = "=0.2.7"
clap = { version = "=4.6.7", features = ["derive"] }
ed25519-dalek = { version = "=2.2.0", features = ["rand_core"] }
hkdf = "=0.12.4"
rand = "=0.8.8"
serde = { version = "1", features = ["derive"] }
serde_cbor = "=0.11.2"
sha2 = "=0.10.9"
tokio = { version = "=1.53.2", features = ["full"] }
tokio-socks = "=0.5.3"
toml = "=1.1.7"
tor-client-lib = "=0.3.2"
unicode-width = "=0.2.2"
x25519-dalek = { version = "=2.0.1", features = ["getrandom"] }
