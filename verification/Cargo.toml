[package]
name = "s3_ingest"
version = "0.1.0"
edition = "2021"
publish = false

[dependencies]
base64 = "0.21"
blake2 = "0.10"
hex = "0.4"
http = "0.2"
md-5 = "0.10"
roxmltree = "0.18"
sha2 = "0.10"
bytes = "1"
futures = "0.3"
hyper = { version = "0.14", features = ["server", "http1", "http2", "tcp", "stream", "runtime"] }
quick-xml = { version = "0.26", features = ["serialize"] }
rmp-serde = "1"
rustls = "0.21"
serde = { version = "1", features = ["derive"] }
serde_json = "1"
tokio = { version = "1", features = ["rt", "rt-multi-thread", "net", "macros", "time", "sync"] }
tokio-rustls = "0.24"
