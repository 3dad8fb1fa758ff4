[package]
name = "goose"
version = "0.1.0"
edition = "2021"
publish = false

[dependencies]
url = "2"
flume = "0.10"
serde = { version = "1", features = ["derive"] }
serde_cbor = "0.11"
ctrlc = "3"
nng = "*"
http = "0.2"
lazy_static = "1"
tokio = { version = "1", features = ["rt-multi-thread", "net", "time", "io-util", "macros", "sync"] }
tokio-util = { version = "0.7", features = ["codec"] }
