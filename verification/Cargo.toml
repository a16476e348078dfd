[package]
name = "azalea"
version = "0.1.0"
edition = "2021"
publish = false

[dependencies]
anyhow = "=1.0.104"
dashmap = "=6.2.1"
figment = { version = "=0.10.19", features = ["toml"] }
futures-util = "=0.3.34"
mimalloc = "=0.1.52"
moka = { version = "=0.12.16", features = ["future", "sync"] }
nix = { version = "=0.31.3", features = ["fs", "process", "resource", "signal"] }
redb = "=4.4.0"
regex = "=1.13.1"
reqwest = { version = "=0.12.28", default-features = false, features = ["brotli", "deflate", "gzip", "http2", "json", "rustls-tls", "stream"] }
schemars = "=1.2.3"
serde = { version = "=1.0.229", features = ["derive"] }
serde_json = "=1.0.154"
smallvec = "=1.16.4"
tokio = { version = "=1.54.1", features = ["full"] }
tokio-util = { version = "=0.7.20", features = ["rt"] }
tracing = "=0.1.44"
tracing-subscriber = { version = "=0.3.23", features = ["env-filter"] }
twilight-gateway = "=0.18.0"
twilight-http = "=0.18.0"
twilight-model = "=0.18.0"
twilight-util = { version = "=0.18.0", features = ["builder"] }
which = "=8.0.6"
