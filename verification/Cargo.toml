[package]
name = "open_web_server"
version = "0.1.0"
edition = "2021"
publish = false

[dependencies]
regex = "=1.13.1"
hmac = "=0.12.1"
sha1 = "=0.10.7"
sha2 = "=0.10.9"
ring = "=0.17.14"
rand = "=0.8.8"
uuid = { version = "=1.29.0", features = ["v4"] }
serde = { version = "=1.0.229", features = ["derive"] }
serde_json = "=1.0.154"
toml = "=0.8.23"
tokio = { version = "=1.54.1", features = ["rt-multi-thread", "macros", "sync", "fs", "time", "net", "io-util"] }
chrono = "=0.4.45"
qrcode = { version = "=0.14.1", default-features = false, features = ["svg"] }
flate2 = "1"
hyper = { version = "1", features = ["server", "http1"] }
hyper-util = { version = "0.1", features = ["tokio"] }
http-body-util = "0.1"
bytes = "1"
reqwest = { version = "0.12", default-features = false, features = ["json", "rustls-tls"] }
