[package]
name = "p2p_core"
version = "0.1.0"
edition = "2021"
publish = false

[dependencies]
libp2p = { version = "*", features = ["kad", "mdns", "tokio", "tcp", "quic", "noise", "yamux", "macros"] }
tokio = { version = "*", features = ["rt-multi-thread", "macros", "io-std", "io-util"] }
futures = "*"
