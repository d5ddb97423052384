[package]
name = "ephemeral_file_share"
version = "0.1.0"
edition = "2021"
publish = false

[dependencies]
anyhow = "=1.0.104"
axum = "=0.7.9"
base64 = "=0.22.1"
chacha20poly1305 = "=0.10.1"
chrono = { version = "=0.4.45", default-features = false, features = ["clock", "std"] }
image = { version = "=0.25.10", default-features = false, features = ["png"] }
libp2p = { version = "=0.53.2", default-features = false, features = ["ed25519"] }
rand = "=0.8.8"
serde = { version = "=1.0.229", features = ["derive"] }
thiserror = "=1.0.69"
tokio = { version = "=1.54.1", features = ["rt-multi-thread", "macros", "sync", "time", "net"] }
tracing = "=0.1.44"
tracing-subscriber = { version = "=0.3.23", features = ["env-filter", "fmt"] }
uuid = { version = "=1.29.0", features = ["v4"] }
qrcode = { version = "*", default-features = false }
