[package]
name = "webrtc_signaling"
version = "0.1.0"
edition = "2021"
publish = false

[dependencies]
libp2p = { version = "0.54", features = ["tcp", "noise", "yamux", "relay", "ping", "identify", "tokio", "macros"] }
tokio = { version = "1", features = ["macros", "rt-multi-thread"] }
futures = "0.3"
log = "0.4"
env_logger = "0.11"
thiserror = "1"
void = "1"

[dev-dependencies]
prost = { version = "0.13", default-features = false, features = ["std"] }
