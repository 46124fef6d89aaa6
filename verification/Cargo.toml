[package]
name = "competitions"
version = "0.1.0"
edition = "2021"
publish = false

[dependencies]
anyhow = "=1.0.104"
async-trait = "=0.1.92"
base64 = "=0.22.1"
bitcoin = { version = "=0.32.102", features = ["base64"] }
dashmap = "=6.2.1"
dlctix = "=0.1.0"
futures = "=0.3.34"
hex = "=0.4.3"
itertools = "=0.14.0"
lightning-invoice = "=0.34.1"
log = "=0.4.35"
nostr-sdk = { version = "=0.44.1", features = ["nip44"] }
rand = "=0.9.5"
rand_chacha = "=0.9.0"
serde = { version = "=1.0.229", features = ["derive"] }
serde_json = "=1.0.154"
thiserror = "=2.0.21"
time = { version = "=0.3.55", features = ["formatting", "parsing", "macros", "serde"] }
tokio = { version = "=1.54.1", features = ["sync", "time", "rt", "rt-multi-thread", "macros"] }
tokio-util = { version = "=0.7.20", features = ["rt"] }
uuid = { version = "=1.29.0", features = ["v7", "v4", "serde"] }
