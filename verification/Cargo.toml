[package]
name = "collab_core"
version = "0.1.0"
edition = "2021"
publish = false

[dependencies]
libp2p = { version = "*", default-features = false, features = ["tokio", "quic", "relay", "dcutr", "identify", "ping", "request-response", "noise", "yamux", "dns", "macros", "ed25519"] }
futures = "*"
tokio = { version = "*", features = ["rt-multi-thread", "macros", "sync", "time", "io-util"] }
serde = { version = "*", features = ["derive"] }
serde_json = "*"
