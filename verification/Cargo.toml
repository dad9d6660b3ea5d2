[package]
name = "pushme_server"
version = "0.1.0"
edition = "2021"
publish = false

[dependencies]
async-stream = "0.3"
axum = { version = "0.8", features = ["ws"] }
base64 = "=0.22.1"
bcrypt = "=0.17.1"
bytes = "1"
chrono = "=0.4.45"
hmac = "=0.12.1"
hyper = { version = "1", features = ["server", "http1"] }
hyper-util = { version = "0.1", features = ["server", "server-auto", "service", "tokio", "http1", "http2"] }
md5 = "=0.7.0"
rand = "=0.8.8"
rcgen = "0.13"
rumqttc = { version = "0.25", default-features = false }
rumqttd = { version = "0.20", default-features = false }
rustls = { version = "0.23", default-features = false, features = ["ring", "std", "tls12"] }
rustls-pemfile = "2"
serde = { version = "1", features = ["derive"] }
serde_json = "=1.0.154"
sha2 = "=0.10.9"
tokio = { version = "1", features = ["full"] }
tokio-rustls = { version = "0.26", default-features = false, features = ["ring", "tls12"] }
tracing = "0.1"
tracing-subscriber = { version = "0.3", features = ["env-filter"] }
