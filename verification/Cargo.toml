[package]
name = "signage_desktop"
version = "0.1.2"
edition = "2021"
publish = false

[dependencies]
anyhow = "1"
chrono = { version = "0.4", default-features = false, features = ["clock"] }
fs4 = "=1.1.0"
futures-util = { version = "0.3", default-features = false, features = ["sink", "std"] }
reqwest = { version = "=0.12.28", default-features = false, features = ["rustls-tls", "stream"] }
serde = { version = "1", features = ["derive"] }
serde_json = "=1.0.154"
sha2 = "=0.11.1"
tiny_http = "0.12"
tokio = { version = "1", features = ["fs", "io-util", "macros", "rt", "sync", "time", "net"] }
tokio-tungstenite = { version = "=0.30.0", features = ["rustls-tls-webpki-roots"] }
uuid = { version = "=1.29.0", features = ["v4"] }
windows = { version = "0.58", features = ["Win32_System_Power"] }
