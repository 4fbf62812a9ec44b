[package]
name = "http_pool"
version = "0.1.0"
edition = "2021"
publish = false

[dependencies]
hyper = { version = "=1.12.0", features = ["client", "http1", "server"] }
hyper-util = { version = "=0.1.21", features = ["tokio"] }
http-body-util = "=0.1.5"
tokio = { version = "=1.53.2", features = ["rt-multi-thread", "sync", "net", "io-util", "time"] }
