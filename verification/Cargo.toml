[package]
name = "relay_client"
version = "0.1.0"
edition = "2021"
publish = false

[dependencies]
snow = "=0.9.6"
hex = "=0.4.3"
sha3 = "=0.10.9"
serde = { version = "=1.0.229", features = ["derive"] }
serde_json = "=1.0.154"
tokio = { version = "=1.54.1", features = ["sync", "net", "rt", "macros"] }
tokio-tungstenite = "=0.30.0"
futures = "=0.3.34"
async-stream = "=0.3.6"
async-trait = "=0.1.92"
log = "0.4"
wasm-bindgen = "0.2"
wasm-bindgen-futures = "0.4"
web-sys = { version = "0.3", features = ["WebSocket", "MessageEvent", "ErrorEvent", "BinaryType"] }
