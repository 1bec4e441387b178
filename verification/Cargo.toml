[package]
name = "peer_library"
version = "0.1.0"
edition = "2021"
publish = false

[dependencies]
libp2p = { version = "0.55", default-features = false, features = ["floodsub", "macros", "mdns", "noise", "tcp", "tokio", "yamux"] }
log = "0.4"
pretty_env_logger = "0.5"
serde = { version = "1", features = ["derive"] }
serde_json = "1"
tokio = { version = "1", features = ["fs", "io-std", "io-util", "macros", "rt", "rt-multi-thread", "sync"] }
