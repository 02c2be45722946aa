[package]
name = "rsiprtp"
version = "0.2.0"
edition = "2021"
publish = false

[dependencies]
audio-codec-algorithms = "*"
md5 = "0.7"
hex = "0.4"
rand = "0.8"
uuid = { version = "1", features = ["v4"] }
rsip = "0.4"
bytes = "1"
thiserror = "1"
tracing = "0.1"
serde = { version = "1", features = ["derive"] }
tokio = { version = "1", features = ["full"] }
rustls = "0.23"
tokio-rustls = "0.26"
rustls-pemfile = "2"
webpki-roots = "0.26"
ropus = "*"

[dev-dependencies]
serde_json = "1"
