[package]
name = "yamos"
version = "0.1.0"
edition = "2021"
publish = false

[dependencies]
anyhow = "=1.0.104"
axum = "=0.8.9"
base64 = "=0.23.1"
chrono = "=0.4.45"
clap = { version = "=4.6.7", features = ["derive", "env"] }
dotenvy = "=0.15.7"
futures = "=0.3.34"
jsonwebtoken = { version = "=11.1.0", features = ["rust_crypto"] }
nucleo-matcher = "=0.3.1"
rand = "=0.10.3"
reqwest = { version = "=0.13.5", default-features = false, features = ["json", "stream"] }
rmcp = "=3.5.1"
serde = { version = "=1.0.229", features = ["derive"] }
serde_json = "=1.0.151"
sha2 = "=0.11.0"
tokio = { version = "=1.53.2", features = ["macros", "rt-multi-thread", "net", "time", "sync", "io-std", "io-util"] }
tokio-util = "=0.7.19"
tower_governor = "=0.8.0"
tracing = "=0.1.44"
tracing-subscriber = { version = "=0.3.23", features = ["env-filter"] }
url = "=2.5.8"
urlencoding = "=2.1.3"
uuid = { version = "=1.27.0", features = ["v4"] }
