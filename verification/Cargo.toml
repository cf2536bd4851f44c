[package]
name = "soniox_asr"
version = "0.1.0"
edition = "2021"
publish = false

[dependencies]
async-trait = "0.1"
futures-util = "0.3"
log = "0.4"
serde_json = "1"
tokio = { version = "1", features = ["net", "time"] }
tokio-tungstenite = { version = "0.26", features = ["rustls-tls-webpki-roots"] }
