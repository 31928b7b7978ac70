[package]
name = "screenhop"
version = "0.2.0"
edition = "2021"
publish = false

[dependencies]
argon2 = "0.5"
chacha20poly1305 = "0.10"
ed25519-dalek = { version = "2", features = ["rand_core"] }
rand_core = { version = "0.6", features = ["getrandom"] }
sha2 = "0.10"
zeroize = "1"
serde = { version = "1", features = ["derive"] }
serde_json = "1"
directories = "*"
ddc-hi = "*"
mdns-sd = "*"
