[package]
name = "ssc_core"
version = "0.1.0"
edition = "2021"
publish = false

[dependencies]
base64 = "=0.23.1"
flate2 = "=1.1.10"
chacha20poly1305 = "=0.11.0"
hkdf = "=0.13.0"
sha2 = "=0.11.0"
ring = "=0.17.14"
rand = "=0.10.3"
zeroize = "=1.9.1"
bytes = "=1.12.1"
tokio = { version = "=1.53.2", features = ["full"] }
webrtc = "=0.21.0"
async-trait = "=0.1.92"

[dev-dependencies]
serde_json = "=1.0.151"
hex = "=0.4.3"
