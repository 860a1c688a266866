[package]
name = "ic_websocket_gateway"
version = "0.1.0"
edition = "2021"
publish = false

[dependencies]
async-trait = "=0.1.92"
candid = "=0.10.37"
ed25519-compact = "=2.6.0"
ezsockets = { version = "=0.7.2", features = ["tungstenite"] }
ic-agent = "=0.49.2"
redis = { version = "=1.7.1", features = ["tokio-comp"] }
ring = "=0.17.14"
serde = { version = "=1.0.229", features = ["derive"] }
serde_cbor = "=0.11.2"
serde_json = "=1.0.151"
tokio = { version = "=1.53.2", features = ["full"] }
