[package]
name = "turbine"
version = "0.1.0"
edition = "2021"
publish = false

[dependencies]
flate2 = "=1.1.10"
brotli = "=9.1.1"
zstd = "=0.13.4"
xxhash-rust = { version = "=0.8.19", features = ["xxh3"] }
sha1 = "=0.10.7"
base64 = "=0.22.1"
dashmap = "=6.2.1"
serde = { version = "=1.0.229", features = ["derive"] }
toml = "=0.8.23"
clap = { version = "=4.6.7", features = ["derive"] }
rustls-pemfile = "=2.2.0"
tokio = { version = "1", features = ["full"] }
hyper = { version = "1", features = ["server", "http1", "http2"] }
hyper-util = { version = "0.1", features = ["tokio", "server-auto", "http1", "http2"] }
http-body-util = "0.1"
bytes = "1"
tracing = "0.1"
tracing-subscriber = { version = "0.3", features = ["env-filter"] }
parking_lot = "0.12"
multer = "3"
futures-util = { version = "0.3", features = ["sink"] }
tokio-tungstenite = "*"
libc = "0.2"
notify = "*"
serde_json = "1"
