[package]
name = "vpn_core"
version = "0.1.0"
edition = "2021"
publish = false

[dependencies]
anyhow = "=1.0.104"
chacha20poly1305 = "=0.11.0"
clap = { version = "=4.6.7", features = ["derive"] }
rand = "=0.10.3"
serde = { version = "=1.0.229", features = ["derive"] }
serde_yml = "=0.0.13"
tokio = { version = "=1.53.2", features = ["full"] }
tracing = "=0.1.44"
tracing-subscriber = "=0.3.23"
tun = { version = "=0.8.14", features = ["async"] }
xxhash-rust = { version = "=0.8.19", features = ["xxh64"] }

[dev-dependencies]
bincode = "=1.3.3"
