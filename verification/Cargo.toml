[package]
name = "fusen"
version = "0.1.0"
edition = "2021"
publish = false

[dependencies]
serde_json = "*"
bytes = "*"
http = "*"
http-body = "*"
http-body-util = "*"
hyper = { version = "*", features = ["client", "server", "http1", "http2"] }
futures-util = "*"
prost = "*"
opentelemetry = "*"
opentelemetry_sdk = "*"
tracing = "*"
tracing-opentelemetry = "*"
