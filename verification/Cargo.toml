[package]
name = "domo"
version = "0.1.0"
edition = "2021"
publish = false

[dependencies]
base64 = "=0.22.1"
serde_json = "=1.0.154"
uuid = { version = "=1.29.0", features = ["v4"] }
serde = { version = "=1.0.229", features = ["derive"] }
tokio = { version = "=1.54.1", features = ["rt-multi-thread", "time", "net"] }
reqwest = { version = "=0.13.5", default-features = false, features = ["json", "rustls", "cookies"] }
rustls = "=0.23.46"
rustls-pemfile = "=2.2.0"
rcgen = "=0.13.2"
rumqttc = "=0.25.1"
url = "=2.5.8"
axiam-sdk = "=1.1.3"
hyper = { version = "=1.12.0", features = ["server", "http1"] }
hyper-util = { version = "=0.1.21", features = ["tokio"] }
http-body-util = "=0.1.5"
tokio-rustls = { version = "=0.26.6", default-features = false }
serde_urlencoded = "=0.7.1"
toml = { version = "0.9", default-features = false, features = ["std", "parse", "serde"] }

[dev-dependencies]
jsonwebtoken = "=11.1.0"
