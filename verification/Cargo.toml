[package]
name = "stream_download"
version = "0.1.0"
edition = "2021"
publish = false

[dependencies]
rangemap = "1"
regex = "1"
url = "2"
mediatype = "0.19"
reqwest = { version = "0.12", default-features = false, features = ["stream"] }
reqwest-middleware = { version = "0.4", default-features = false }
tokio = { version = "1", features = ["rt", "rt-multi-thread", "macros", "sync", "time", "process", "io-util", "io-std"] }
tokio-util = { version = "0.7", features = ["io", "compat"] }
futures-util = "0.3"
futures = "0.3"
bytes = "1"
tempfile = "3"
parking_lot = "0.12"
tracing = "0.1"
thiserror = "2"
async-trait = "0.1"
educe = "0.6"
tap = "1"
pin-project-lite = "0.2"
opendal = { version = "0.54", default-features = false }
