[package]
name = "smithy_router"
version = "0.1.0"
edition = "2021"
publish = false

[dependencies]
serde_urlencoded = "0.7"
serde_json = "1"
assert-json-diff = "1"
mime = "0.3"
http = "0.2"
hyper = { version = "0.14", features = ["server", "http1", "tcp"] }
tokio = { version = "1", features = ["rt-multi-thread", "macros", "net"] }
