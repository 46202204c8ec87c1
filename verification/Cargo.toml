[package]
name = "gimme_a_chance"
version = "0.1.0"
edition = "2021"
publish = false

[dependencies]
aec3 = "=0.4.0"
anyhow = "=1.0.104"
assert_no_alloc = "*"
base64 = "=0.22.1"
chrono = "=0.4.45"
crossbeam-channel = "=0.5.17"
dirs-next = "=2.0.0"
futures-util = { version = "=0.3.34", default-features = false, features = ["std"] }
hdrhistogram = { version = "=7.6.0", default-features = false }
hound = "=3.5.1"
image = { version = "=0.25.10", default-features = false, features = ["jpeg"] }
keyring = { version = "=3.6.3", default-features = false, features = ["windows-native"] }
realfft = "=3.5.1"
reqwest = { version = "=0.12.28", default-features = false, features = ["json", "stream", "multipart", "rustls-tls"] }
ringbuf = "=0.4.8"
rusqlite = { version = "=0.41.1", features = ["bundled"] }
secrecy = "=0.8.0"
serde = { version = "=1.0.229", features = ["derive"] }
serde_json = "=1.0.154"
thiserror = "=2.0.21"
tiktoken-rs = "=0.12.1"
tokio = { version = "=1.54.1", features = ["rt", "time", "sync", "process", "io-util", "macros"] }
tracing = "=0.1.44"
tracing-appender = "=0.2.5"
tracing-subscriber = { version = "=0.3.23", features = ["env-filter", "json"] }
tract-onnx = "=0.23.9"
uuid = { version = "=1.29.0", features = ["v4"] }
webrtc-vad = "=0.4.0"
