[package]
name = "kyber_numbers"
version = "0.1.0"
edition = "2021"
publish = false

[dependencies]
ahash = "=0.8.12"
kyber-pke = "=0.5.0"
pqc_kyber_kyberslash = { version = "=0.7.1", features = ["kyber1024", "std"] }
rand = "=0.8.8"
serde = { version = "=1.0.229", features = ["derive"] }
serde_json = "=1.0.154"
tokio = { version = "=1.54.1", features = ["net", "sync", "rt", "rt-multi-thread", "macros"] }
anyhow = "=1.0.104"
log = "=0.4.35"
