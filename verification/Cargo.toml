[package]
name = "torsen"
version = "0.1.0"
edition = "2021"
publish = false

[dependencies]
tokio = { version = "1", features = ["macros", "rt-multi-thread", "net", "sync", "time", "fs"] }
tokio-stream = { version = "0.1", features = ["net"] }
tonic = { version = "0.13", features = ["gzip", "tls-ring"] }
prost = "0.13"
http = "1"
hyper = { version = "1", features = ["server", "client", "http2"] }
hyper-util = { version = "0.1", features = ["tokio", "server", "client-legacy", "http2", "service"] }
hyper-rustls = { version = "0.27", default-features = false, features = ["http2", "ring", "tls12"] }
tokio-rustls = { version = "0.26", default-features = false, features = ["ring", "tls12", "logging"] }
rustls-pemfile = "2"
tower = { version = "0.5", features = ["util"] }
tower-http = { version = "0.6", features = ["add-extension", "util"] }
async-stream = "0.3"
log = "0.4"
tracing = "0.1"
tracing-subscriber = "0.3"
