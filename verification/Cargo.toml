[package]
name = "broadcast_chat"
version = "0.1.0"
edition = "2021"
publish = false

[dependencies]
tokio = { version = "=1.53.2", features = ["rt-multi-thread", "macros", "net", "sync"] }
tokio-websockets = { version = "=0.13.3", features = ["server", "sha1_smol"] }
futures-util = { version = "=0.3.34", features = ["sink"] }
